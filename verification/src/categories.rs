//! The category domain: its error, the name validator, and the income /
//! expense kind a category is labelled with.

use vstd::prelude::*;

use crate::text::{nonblank_spec, str_eq, trimmed_nonblank};

verus! {

/// Why a category operation failed; every message is safe to show a user.
#[derive(Debug, Clone, Copy, PartialEq, Eq)]
pub enum CategoryError {
    Unauthorized,
    NotFound,
    DuplicateName,
    InvalidInput(&'static str),
    Internal,
}

impl CategoryError {
    /// The user-facing message for this error.
    pub fn message(&self) -> (r: &'static str)
        ensures
            r@ == (match *self {
                CategoryError::Unauthorized => "you must be signed in to do this"@,
                CategoryError::NotFound => "category not found"@,
                CategoryError::DuplicateName => "you already have a category with that name"@,
                CategoryError::InvalidInput(message) => message@,
                CategoryError::Internal => "something went wrong"@,
            }),
    {
        match self {
            CategoryError::Unauthorized => "you must be signed in to do this",
            CategoryError::NotFound => "category not found",
            CategoryError::DuplicateName => "you already have a category with that name",
            CategoryError::InvalidInput(message) => message,
            CategoryError::Internal => "something went wrong",
        }
    }
}

/// Whether a category labels money coming in or going out. Only a label:
/// reports place a category by the sign of its net.
#[derive(Debug, Clone, Copy, PartialEq, Eq)]
pub enum CategoryKind {
    Income,
    Expense,
}

impl CategoryKind {
    /// The kind stored as `value` in the database, if it is one.
    pub fn from_db_str(value: &str) -> (r: Option<CategoryKind>)
        ensures
            r == (if value@ == "income"@ {
                Some(CategoryKind::Income)
            } else if value@ == "expense"@ {
                Some(CategoryKind::Expense)
            } else {
                None::<CategoryKind>
            }),
    {
        if str_eq(value, "income") {
            Some(CategoryKind::Income)
        } else if str_eq(value, "expense") {
            Some(CategoryKind::Expense)
        } else {
            None
        }
    }

    /// The database spelling of this kind.
    pub fn as_db_str(&self) -> (s: &'static str)
        ensures
            s@ == (match self {
                CategoryKind::Income => "income"@,
                CategoryKind::Expense => "expense"@,
            }),
    {
        match self {
            CategoryKind::Income => "income",
            CategoryKind::Expense => "expense",
        }
    }
}

/// Trim the category name and require it non-blank.
pub fn validate_name(input: &str) -> (r: Result<String, CategoryError>)
    ensures
        r is Ok <==> nonblank_spec(input@) is Some,
        r matches Ok(name) ==> nonblank_spec(input@) == Some(name@),
        r matches Err(e) ==> e == CategoryError::InvalidInput("category name is required"),
{
    match trimmed_nonblank(input) {
        Some(name) => Ok(name),
        None => Err(CategoryError::InvalidInput("category name is required")),
    }
}

} // verus!
