//! Authentication: input validation, the session cookie, opaque session
//! tokens, password hashing, and the session lifetime rules.

pub mod cookie;
pub mod password;
pub mod session;
pub mod token;
pub mod validate;
