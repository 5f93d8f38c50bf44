//! The decisions of budgets: who may use a budget, what a new range must
//! hold, which transactions a budget counts, and its spending against the
//! limit.
use vstd::prelude::*;
use crate::decimal::{decimal_text, decimal_to_string, fits_i128, parse_decimal, parsed_decimal, sum_in_range, total, total_of, value_order, Decimal};
use crate::errors::{api_error_view, ApiError, ApiErrorView};
use crate::json::{field_str, JsonValue};
use crate::models::Timestamp;
use crate::text::owned;
use crate::time::{date_le, date_number, day_number_of, valid_date, CalendarDate};
use crate::utils::oauth_state::{parse_uuid, uuid_parsed};

verus! {

/// Checks that a budget (owned by `owner`) is the user's.
pub fn check_budget_owner(owner: u128, user_id: u128) -> (res: Result<(), ApiError>)
    ensures
        owner == user_id ==> res is Ok,
        owner != user_id ==> (res matches Err(e) && api_error_view(e) == ApiErrorView::Forbidden(
            "Budget does not belong to user"@,
        )),
{
    if owner != user_id {
        Err(ApiError::Forbidden(owned("Budget does not belong to user")))
    } else {
        Ok(())
    }
}

/// The ID in member `key` of a budget's filters: a string that reads as a
/// UUID.
pub open spec fn filter_id(filters: JsonValue, key: Seq<char>) -> Option<u128> {
    match field_str(filters, key) {
        Some(s) => uuid_parsed(s),
        None => None,
    }
}

/// The category and the account a budget is restricted to, read from its
/// filters (`category_id`, `account_id`); an absent or unreadable one
/// restricts nothing.
pub fn budget_filter_ids(filters: &JsonValue) -> (res: (Option<u128>, Option<u128>))
    ensures
        res.0 == filter_id(*filters, "category_id"@),
        res.1 == filter_id(*filters, "account_id"@),
{
    let category_id = match crate::json::str_field(filters, "category_id") {
        Some(s) => parse_uuid(s),
        None => None,
    };
    let account_id = match crate::json::str_field(filters, "account_id") {
        Some(s) => parse_uuid(s),
        None => None,
    };
    (category_id, account_id)
}

/// Checks a new range of a budget and reads its limit: the end, where there
/// is one, may not come before the start, and the limit must read as an
/// amount.
pub fn check_new_range(start: CalendarDate, end: Option<CalendarDate>, limit_text: &str) -> (res: Result<Decimal, ApiError>)
    ensures
        (end matches Some(e) && !date_le(start, e)) ==> (res matches Err(x) && api_error_view(x) == ApiErrorView::Validation(
            "End date must be after start date"@,
        )),
        !(end matches Some(e) && !date_le(start, e)) ==> match parsed_decimal(limit_text@) {
            Some(p) => fits_i128(p.0) ==> (res matches Ok(d) && d.mantissa == p.0 && d.scale == p.1),
            None => res matches Err(x) && api_error_view(x) == ApiErrorView::Validation("Invalid limit amount"@),
        },
{
    match end {
        Some(e) => {
            let before = e.year < start.year || (e.year == start.year && (e.month < start.month || (e.month == start.month
                && e.day < start.day)));
            if before {
                return Err(ApiError::Validation(owned("End date must be after start date")));
            }
        },
        None => {},
    }
    match parse_decimal(limit_text) {
        Some(d) => Ok(d),
        None => Err(ApiError::Validation(owned("Invalid limit amount"))),
    }
}

/// The first day counted from 1970-01-01 (day 719163 from the start of the
/// era).
pub open spec fn epoch_day(d: CalendarDate) -> int {
    day_number_of(d) - 719163
}

/// The instants a range covers: from the first second of its start day to
/// the last second of its end day, where it has one (UTC).
pub fn range_bounds(start: CalendarDate, end: Option<CalendarDate>) -> (res: (Timestamp, Option<Timestamp>))
    requires
        valid_date(start),
        end matches Some(e) ==> valid_date(e),
    ensures
        res.0 == (Timestamp { seconds: (epoch_day(start) * 86400) as i64, nanos: 0 }),
        match end {
            Some(e) => res.1 == Some(Timestamp { seconds: (epoch_day(e) * 86400 + 86399) as i64, nanos: 0 }),
            None => res.1 is None,
        },
{
    let s = date_number(start) as i64;
    let from = Timestamp { seconds: (s - 719163) * 86400, nanos: 0 };
    let to = match end {
        Some(e) => {
            let n = date_number(e) as i64;
            Some(Timestamp { seconds: (n - 719163) * 86400 + 86399, nanos: 0 })
        },
        None => None,
    };
    (from, to)
}

/// A budget's spending against the limit of its active range.
#[derive(Debug, Clone)]
pub struct BudgetFigures {
    pub current_spending: Decimal,
    pub current_spending_text: String,
    pub limit_amount_text: String,
    pub is_over_budget: bool,
}

/// The spending of a budget: the sum of the per-currency spending already
/// converted to the primary currency, against `limit`.
pub fn budget_figures(converted: &Vec<Decimal>, limit: &Decimal) -> (res: BudgetFigures)
    requires
        sum_in_range(converted@),
    ensures
        res.current_spending == total_of(converted@),
        res.current_spending_text@ == decimal_text(
            total_of(converted@).mantissa as int,
            total_of(converted@).scale as int,
        ),
        res.limit_amount_text@ == decimal_text(limit.mantissa as int, limit.scale as int),
        res.is_over_budget == (value_order(total_of(converted@), *limit) > 0),
{
    let spending = total(converted);
    BudgetFigures {
        current_spending: spending,
        current_spending_text: decimal_to_string(&spending),
        limit_amount_text: decimal_to_string(limit),
        is_over_budget: spending.order(limit) > 0,
    }
}

/// The active range of a budget, which the status needs.
pub fn require_active_range<T>(range: Option<T>) -> (res: Result<T, ApiError>)
    ensures
        match range {
            Some(r) => res == Ok::<T, ApiError>(r),
            None => res matches Err(e) && api_error_view(e) == ApiErrorView::NotFound(
                "No active budget range for current date"@,
            ),
        },
{
    match range {
        Some(r) => Ok(r),
        None => Err(ApiError::NotFound(owned("No active budget range for current date"))),
    }
}

} // verus!
