//! The decisions of accounts: who may use one, when one may be deleted, and
//! the transaction that records an opening balance.
use vstd::prelude::*;
use crate::decimal::{fits_i128, parse_decimal, parsed_decimal, Decimal};
use crate::errors::{api_error_view, ApiError, ApiErrorView};
use crate::text::owned;

verus! {

/// Checks that an account (owned by `owner`) is the user's.
pub fn check_account_owner(owner: u128, user_id: u128) -> (res: Result<(), ApiError>)
    ensures
        owner == user_id ==> res is Ok,
        owner != user_id ==> (res matches Err(e) && api_error_view(e) == ApiErrorView::Unauthorized(
            "Account does not belong to user"@,
        )),
{
    if owner != user_id {
        Err(ApiError::Unauthorized(owned("Account does not belong to user")))
    } else {
        Ok(())
    }
}

/// Checks that the user may delete an account: it is theirs and has no
/// transactions.
pub fn check_account_deletable(owner: u128, user_id: u128, has_transactions: bool) -> (res: Result<(), ApiError>)
    ensures
        owner != user_id ==> (res matches Err(e) && api_error_view(e) == ApiErrorView::Unauthorized(
            "Account does not belong to user"@,
        )),
        owner == user_id && has_transactions ==> (res matches Err(e) && api_error_view(e) == ApiErrorView::Validation(
            "Cannot delete account with existing transactions"@,
        )),
        owner == user_id && !has_transactions ==> res is Ok,
{
    check_account_owner(owner, user_id)?;
    if has_transactions {
        return Err(ApiError::Validation(owned("Cannot delete account with existing transactions")));
    }
    Ok(())
}

/// The transaction that records an account's opening balance.
#[derive(Debug, Clone)]
pub struct OpeningBalance {
    pub title: String,
    pub notes: String,
    pub amount: Decimal,
}

/// The opening-balance transaction of a new account: none without a
/// balance or for a zero one; the balance's text must read as an amount.
pub fn opening_balance(balance_text: Option<&str>) -> (res: Result<Option<OpeningBalance>, ApiError>)
    ensures
        match balance_text {
            None => res matches Ok(None),
            Some(t) => match parsed_decimal(t@) {
                None => res matches Err(e) && api_error_view(e) == ApiErrorView::Validation("Invalid initial balance"@),
                Some(p) => fits_i128(p.0) ==> if p.0 == 0 {
                    res matches Ok(None)
                } else {
                    res matches Ok(Some(b)) && b.amount.mantissa == p.0 && b.amount.scale == p.1 && b.title@
                        == "Initial Balance"@ && b.notes@ == "Initial account balance"@
                },
            },
        },
{
    let t = match balance_text {
        Some(t) => t,
        None => {
            return Ok(None);
        },
    };
    let amount = match parse_decimal(t) {
        Some(d) => d,
        None => {
            return Err(ApiError::Validation(owned("Invalid initial balance")));
        },
    };
    if amount.is_zero() {
        return Ok(None);
    }
    Ok(Some(OpeningBalance { title: owned("Initial Balance"), notes: owned("Initial account balance"), amount }))
}

} // verus!
