//! The demo account's fixed login, its error, and the date and decimal
//! helpers its example data is built with.

use vstd::prelude::*;

use crate::date::{pred_spec, Date};
use crate::decimal::{parse_spec, Decimal};

verus! {

/// The demo login's email (development only).
pub const DEMO_EMAIL: &'static str = "demo@example.test";

/// The demo login's password (development only).
pub const DEMO_PASSWORD: &'static str = "demo-password-123";

/// Why seeding the demo account failed.
#[derive(Debug, Clone, Copy, PartialEq, Eq)]
pub enum SeedError {
    Internal,
}

impl SeedError {
    /// The message for this error.
    pub fn message(&self) -> (r: &'static str)
        ensures
            r@ == (match *self {
                SeedError::Internal => "something went wrong seeding the demo account"@,
            }),
    {
        match self {
            SeedError::Internal => "something went wrong seeding the demo account",
        }
    }
}

/// `d` stepped back `n` days, staying on the earliest representable day
/// once it is reached.
pub open spec fn days_before_spec(d: Date, n: nat) -> Date
    decreases n,
{
    if n == 0 {
        d
    } else {
        let e = days_before_spec(d, (n - 1) as nat);
        match pred_spec(e) {
            Some(p) => p,
            None => e,
        }
    }
}

/// `n` days before `date`, one day at a time.
pub fn days_before(date: Date, n: u32) -> (r: Date)
    requires
        date.valid(),
    ensures
        r == days_before_spec(date, n as nat),
        r.valid(),
{
    let mut day = date;
    let mut i: u32 = 0;
    while i < n
        invariant
            i <= n,
            day.valid(),
            day == days_before_spec(date, i as nat),
        decreases n - i,
    {
        day = match day.pred() {
            Some(p) => p,
            None => day,
        };
        i = i + 1;
    }
    day
}

/// Parse one of the seed data's decimal literals.
pub fn dec(value: &str) -> (r: Result<Decimal, SeedError>)
    ensures
        match parse_spec(value@) {
            Some(d) => r == Ok::<Decimal, SeedError>(d),
            None => r == Err::<Decimal, SeedError>(SeedError::Internal),
        },
{
    match Decimal::parse(value) {
        Some(d) => Ok(d),
        None => Err(SeedError::Internal),
    }
}

} // verus!
