//! The rules of transfers between two of the user's accounts.
//!
//! A transfer is two linked transactions: an outflow (negative) on the
//! source account and an inflow (positive) on the destination. The amounts
//! and exchange rates of a request arrive as floating-point numbers and are
//! resolved by the application; the library holds the checks, the
//! directions and the titles.
use vstd::prelude::*;
use crate::decimal::{sign_of, Decimal};
use crate::errors::{api_error_view, ApiError, ApiErrorView};
use crate::models::Transaction;
use crate::text::{owned, push_str};

verus! {

/// Where the destination amount of a transfer (or the counterpart of a
/// conversion) comes from.
#[derive(Debug, Clone, Copy, PartialEq, Eq, Structural)]
pub enum AmountSource {
    /// Both accounts share a currency: the given amount, else the source
    /// amount, at rate 1.
    SameCurrency,
    /// The given destination amount; the rate is its quotient by the
    /// source amount.
    GivenAmount,
    /// The given exchange rate; the amount is the source amount times it.
    GivenRate,
}

/// Chooses where the other amount comes from: the same currency needs
/// nothing; across currencies a given amount wins over a given rate, and
/// with neither the request is refused with `missing`.
pub open spec fn amount_source_of(same_currency: bool, has_amount: bool, has_rate: bool) -> Option<AmountSource> {
    if same_currency {
        Some(AmountSource::SameCurrency)
    } else if has_amount {
        Some(AmountSource::GivenAmount)
    } else if has_rate {
        Some(AmountSource::GivenRate)
    } else {
        None
    }
}

fn amount_source(same_currency: bool, has_amount: bool, has_rate: bool, missing: &str) -> (res: Result<AmountSource, ApiError>)
    ensures
        match amount_source_of(same_currency, has_amount, has_rate) {
            Some(a) => res == Ok::<AmountSource, ApiError>(a),
            None => res matches Err(e) && api_error_view(e) == ApiErrorView::Validation(missing@),
        },
{
    if same_currency {
        Ok(AmountSource::SameCurrency)
    } else if has_amount {
        Ok(AmountSource::GivenAmount)
    } else if has_rate {
        Ok(AmountSource::GivenRate)
    } else {
        Err(ApiError::Validation(owned(missing)))
    }
}

/// Where the destination amount of a transfer request comes from (see
/// `amount_source_of`), from whether `to_amount` and `exchange_rate` are
/// given.
pub fn transfer_amount_source(same_currency: bool, has_to_amount: bool, has_exchange_rate: bool) -> (res: Result<
    AmountSource,
    ApiError,
>)
    ensures
        match amount_source_of(same_currency, has_to_amount, has_exchange_rate) {
            Some(a) => res == Ok::<AmountSource, ApiError>(a),
            None => res matches Err(e) && api_error_view(e) == ApiErrorView::Validation(
                "Cross-currency transfers require either to_amount or exchange_rate"@,
            ),
        },
{
    amount_source(
        same_currency,
        has_to_amount,
        has_exchange_rate,
        "Cross-currency transfers require either to_amount or exchange_rate",
    )
}

/// Where the counterpart amount of a conversion into a transfer comes from
/// (see `amount_source_of`), from whether `counterpart_amount` and
/// `exchange_rate` are given.
pub fn counterpart_source(same_currency: bool, has_counterpart_amount: bool, has_exchange_rate: bool) -> (res: Result<
    AmountSource,
    ApiError,
>)
    ensures
        match amount_source_of(same_currency, has_counterpart_amount, has_exchange_rate) {
            Some(a) => res == Ok::<AmountSource, ApiError>(a),
            None => res matches Err(e) && api_error_view(e) == ApiErrorView::Validation(
                "Cross-currency conversion requires either counterpart_amount or exchange_rate"@,
            ),
        },
{
    amount_source(
        same_currency,
        has_counterpart_amount,
        has_exchange_rate,
        "Cross-currency conversion requires either counterpart_amount or exchange_rate",
    )
}

/// The titles of the two legs: the request's title for both, or
/// "Transfer to <destination>" and "Transfer from <source>".
pub fn transfer_titles(title: &Option<String>, from_account_name: &str, to_account_name: &str) -> (res: (String, String))
    ensures
        match title {
            Some(t) => res.0@ == t@ && res.1@ == t@,
            None => res.0@ == "Transfer to "@ + to_account_name@ && res.1@ == "Transfer from "@ + from_account_name@,
        },
{
    match title {
        Some(t) => (t.clone(), t.clone()),
        None => {
            let mut from_title = owned("Transfer to ");
            push_str(&mut from_title, to_account_name);
            let mut to_title = owned("Transfer from ");
            push_str(&mut to_title, from_account_name);
            (from_title, to_title)
        },
    }
}

/// A transfer needs two different accounts.
pub fn check_transfer_accounts(from_account_id: u128, to_account_id: u128) -> (res: Result<(), ApiError>)
    ensures
        from_account_id != to_account_id ==> res is Ok,
        from_account_id == to_account_id ==> (res matches Err(e) && api_error_view(e) == ApiErrorView::Validation(
            "Source and destination accounts must be different"@,
        )),
{
    if from_account_id == to_account_id {
        Err(ApiError::Validation(owned("Source and destination accounts must be different")))
    } else {
        Ok(())
    }
}

/// Why a transaction cannot be converted into a transfer, checked in this
/// order; `None` when it can.
pub open spec fn conversion_refusal(
    original: Transaction,
    user_id: u128,
    in_transfer: bool,
    split_count: usize,
    counterpart_account_id: u128,
) -> Option<ApiErrorView> {
    if original.user_id != user_id {
        Some(ApiErrorView::Unauthorized("Transaction does not belong to user"@))
    } else if original.is_deleted {
        Some(ApiErrorView::Validation("Cannot convert a deleted transaction into a transfer"@))
    } else if in_transfer {
        Some(ApiErrorView::Validation("Transaction is already part of a transfer"@))
    } else if split_count > 0 {
        Some(
            ApiErrorView::Validation(
                "Cannot convert a transaction with splits into a transfer. Remove the splits first."@,
            ),
        )
    } else if sign_of(original.amount) == 0 {
        Some(ApiErrorView::Validation("Cannot convert a zero-amount transaction into a transfer"@))
    } else if counterpart_account_id == original.account_id {
        Some(ApiErrorView::Validation("Counterpart account must be different from the transaction's account"@))
    } else {
        None
    }
}

/// Checks that `original` can become one leg of a transfer with an account
/// of `counterpart_account_id`, and tells its direction: `true` when the
/// original is the source (its amount is negative).
pub fn check_convertible(
    original: &Transaction,
    user_id: u128,
    in_transfer: bool,
    split_count: usize,
    counterpart_account_id: u128,
) -> (res: Result<bool, ApiError>)
    ensures
        match conversion_refusal(*original, user_id, in_transfer, split_count, counterpart_account_id) {
            Some(v) => res matches Err(e) && api_error_view(e) == v,
            None => res == Ok::<bool, ApiError>(sign_of(original.amount) < 0),
        },
{
    if original.user_id != user_id {
        return Err(ApiError::Unauthorized(owned("Transaction does not belong to user")));
    }
    if original.is_deleted {
        return Err(ApiError::Validation(owned("Cannot convert a deleted transaction into a transfer")));
    }
    if in_transfer {
        return Err(ApiError::Validation(owned("Transaction is already part of a transfer")));
    }
    if split_count > 0 {
        return Err(
            ApiError::Validation(
                owned("Cannot convert a transaction with splits into a transfer. Remove the splits first."),
            ),
        );
    }
    if original.amount.is_zero() {
        return Err(ApiError::Validation(owned("Cannot convert a zero-amount transaction into a transfer")));
    }
    if counterpart_account_id == original.account_id {
        return Err(
            ApiError::Validation(owned("Counterpart account must be different from the transaction's account")),
        );
    }
    Ok(original.amount.signum() < 0)
}

/// The new leg created by a conversion: the counterpart amount as an inflow
/// when the original is the source, as an outflow otherwise; titled
/// "Transfer from <original account>" or "Transfer to <original account>".
pub fn new_leg(original_is_source: bool, counterpart_abs: &Decimal, original_account_name: &str) -> (res: (Decimal, String))
    requires
        counterpart_abs.mantissa != i128::MIN,
    ensures
        original_is_source ==> res.0 == *counterpart_abs && res.1@ == "Transfer from "@ + original_account_name@,
        !original_is_source ==> res.0.mantissa == -counterpart_abs.mantissa && res.0.scale == counterpart_abs.scale
            && res.1@ == "Transfer to "@ + original_account_name@,
{
    if original_is_source {
        let mut t = owned("Transfer from ");
        push_str(&mut t, original_account_name);
        (*counterpart_abs, t)
    } else {
        let mut t = owned("Transfer to ");
        push_str(&mut t, original_account_name);
        (counterpart_abs.neg(), t)
    }
}

/// Why an existing transaction cannot be linked as the other leg, checked
/// in this order; `None` when it can.
pub open spec fn link_refusal(
    original: Transaction,
    original_is_source: bool,
    counterpart: Transaction,
    user_id: u128,
    counterpart_account_id: u128,
    counterpart_in_transfer: bool,
    counterpart_split_count: usize,
) -> Option<ApiErrorView> {
    if counterpart.id == original.id {
        Some(ApiErrorView::Validation("Cannot link a transaction to itself"@))
    } else if counterpart.user_id != user_id {
        Some(ApiErrorView::Unauthorized("Counterpart transaction does not belong to user"@))
    } else if counterpart.account_id != counterpart_account_id {
        Some(ApiErrorView::Validation("Counterpart transaction is not in the chosen account"@))
    } else if sign_of(counterpart.amount) == 0 || (sign_of(counterpart.amount) < 0) == original_is_source {
        Some(ApiErrorView::Validation("Counterpart transaction must have the opposite sign to the original"@))
    } else if counterpart_in_transfer {
        Some(ApiErrorView::Validation("Counterpart transaction is already part of a transfer"@))
    } else if counterpart_split_count > 0 {
        Some(ApiErrorView::Validation("Cannot link a transaction with splits into a transfer"@))
    } else {
        None
    }
}

/// Checks an existing transaction chosen as the other leg and gives the
/// (from, to) transaction IDs: the original keeps its side.
pub fn check_link_counterpart(
    original: &Transaction,
    original_is_source: bool,
    counterpart: &Transaction,
    user_id: u128,
    counterpart_account_id: u128,
    counterpart_in_transfer: bool,
    counterpart_split_count: usize,
) -> (res: Result<(u128, u128), ApiError>)
    ensures
        match link_refusal(
            *original,
            original_is_source,
            *counterpart,
            user_id,
            counterpart_account_id,
            counterpart_in_transfer,
            counterpart_split_count,
        ) {
            Some(v) => res matches Err(e) && api_error_view(e) == v,
            None => res == Ok::<(u128, u128), ApiError>(
                if original_is_source {
                    (original.id, counterpart.id)
                } else {
                    (counterpart.id, original.id)
                },
            ),
        },
{
    if counterpart.id == original.id {
        return Err(ApiError::Validation(owned("Cannot link a transaction to itself")));
    }
    if counterpart.user_id != user_id {
        return Err(ApiError::Unauthorized(owned("Counterpart transaction does not belong to user")));
    }
    if counterpart.account_id != counterpart_account_id {
        return Err(ApiError::Validation(owned("Counterpart transaction is not in the chosen account")));
    }
    let counterpart_is_source = counterpart.amount.signum() < 0;
    if counterpart.amount.is_zero() || counterpart_is_source == original_is_source {
        return Err(ApiError::Validation(owned("Counterpart transaction must have the opposite sign to the original")));
    }
    if counterpart_in_transfer {
        return Err(ApiError::Validation(owned("Counterpart transaction is already part of a transfer")));
    }
    if counterpart_split_count > 0 {
        return Err(ApiError::Validation(owned("Cannot link a transaction with splits into a transfer")));
    }
    if original_is_source {
        Ok((original.id, counterpart.id))
    } else {
        Ok((counterpart.id, original.id))
    }
}

/// Whether `txn` may be offered as the other leg of `original`: not the
/// original itself, not zero, of the opposite sign, not already in a
/// transfer and without splits.
pub open spec fn is_candidate(original: Transaction, txn: Transaction, in_transfer: bool, split_count: usize) -> bool {
    &&& txn.id != original.id
    &&& sign_of(txn.amount) != 0
    &&& (sign_of(txn.amount) < 0) != (sign_of(original.amount) < 0)
    &&& !in_transfer
    &&& split_count == 0
}

/// A transaction already part of a transfer is never offered as the other
/// leg of a conversion, nor is one with splits, the original itself, or a
/// transaction of the original's sign or of zero.
pub proof fn lemma_candidate_exclusions(
    original: Transaction,
    txn: Transaction,
    in_transfer: bool,
    split_count: usize,
)
    ensures
        in_transfer ==> !is_candidate(original, txn, in_transfer, split_count),
        split_count > 0 ==> !is_candidate(original, txn, in_transfer, split_count),
        txn.id == original.id ==> !is_candidate(original, txn, in_transfer, split_count),
        sign_of(txn.amount) == 0 ==> !is_candidate(original, txn, in_transfer, split_count),
        sign_of(txn.amount) == sign_of(original.amount) ==> !is_candidate(original, txn, in_transfer, split_count),
{
}

/// `is_candidate`.
pub fn is_convert_candidate(original: &Transaction, txn: &Transaction, in_transfer: bool, split_count: usize) -> (res: bool)
    ensures
        res == is_candidate(*original, *txn, in_transfer, split_count),
{
    txn.id != original.id && !txn.amount.is_zero() && (txn.amount.signum() < 0) != (original.amount.signum() < 0)
        && !in_transfer && split_count == 0
}

} // verus!
