//! The single-number balance of one account: the signed sum of its
//! account-currency amounts, unavailable while a conversion is pending.

use vstd::prelude::*;

use crate::accounts::AccountError;
use crate::decimal::{dec, Decimal};

verus! {

/// Why an account balance could not be produced.
#[derive(Debug, Clone, Copy, PartialEq, Eq)]
pub enum BalanceError {
    Unauthorized,
    NotFound,
    InvalidInput(&'static str),
    RateUnavailable,
    Internal,
}

impl BalanceError {
    /// The user-facing message for this error.
    pub fn message(&self) -> (r: &'static str)
        ensures
            r@ == (match *self {
                BalanceError::Unauthorized => "you must be signed in to do this"@,
                BalanceError::NotFound => "account not found"@,
                BalanceError::InvalidInput(message) => message@,
                BalanceError::RateUnavailable => "no exchange rate available to value this account"@,
                BalanceError::Internal => "something went wrong"@,
            }),
    {
        match self {
            BalanceError::Unauthorized => "you must be signed in to do this",
            BalanceError::NotFound => "account not found",
            BalanceError::InvalidInput(message) => message,
            BalanceError::RateUnavailable => "no exchange rate available to value this account",
            BalanceError::Internal => "something went wrong",
        }
    }
}

/// The balance error an account error becomes.
pub open spec fn from_account_spec(e: AccountError) -> BalanceError {
    match e {
        AccountError::Unauthorized => BalanceError::Unauthorized,
        AccountError::NotFound => BalanceError::NotFound,
        _ => BalanceError::Internal,
    }
}

impl From<AccountError> for BalanceError {
    fn from(err: AccountError) -> (r: BalanceError) {
        match err {
            AccountError::Unauthorized => BalanceError::Unauthorized,
            AccountError::NotFound => BalanceError::NotFound,
            _ => BalanceError::Internal,
        }
    }
}

impl vstd::std_specs::convert::FromSpecImpl<AccountError> for BalanceError {
    open spec fn obeys_from_spec() -> bool {
        true
    }

    open spec fn from_spec(v: AccountError) -> BalanceError {
        from_account_spec(v)
    }
}

/// An account's balance as one number in its default currency.
#[derive(Debug, Clone)]
pub struct TotalBalance {
    pub amount: Decimal,
    pub alphabetic_code: String,
}

/// The balance of an account from what was read: unavailable while any of
/// its transactions is pending conversion; otherwise the stored sum, zero
/// when the account has no transactions.
pub fn account_total(
    pending_conversion: bool,
    balance: Option<Decimal>,
    alphabetic_code: String,
) -> (r: Result<TotalBalance, BalanceError>)
    ensures
        pending_conversion ==> r == Err::<TotalBalance, BalanceError>(BalanceError::RateUnavailable),
        !pending_conversion ==> (r matches Ok(t) && t.alphabetic_code == alphabetic_code && t.amount
            == match balance {
            Some(b) => b,
            None => dec(0, 0),
        }),
{
    if pending_conversion {
        return Err(BalanceError::RateUnavailable);
    }
    let amount = match balance {
        Some(b) => b,
        None => Decimal::zero(),
    };
    Ok(TotalBalance { amount, alphabetic_code })
}

} // verus!
