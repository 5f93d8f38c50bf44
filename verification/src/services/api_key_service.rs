//! The decisions of API keys: what a new key must hold, who may manage a
//! key, when it expires, and how a presented key is matched against the
//! stored ones.
use vstd::prelude::*;
use crate::errors::{api_error_view, ApiError, ApiErrorView};
use crate::models::{is_before, Timestamp};
use crate::text::owned;

verus! {

/// Checks that a new key is granted at least one permission: the lists of
/// permissions of the five scopes are not all empty.
pub fn check_scopes_selected(
    transactions_empty: bool,
    accounts_empty: bool,
    budgets_empty: bool,
    categories_empty: bool,
    people_empty: bool,
) -> (res: Result<(), ApiError>)
    ensures
        (transactions_empty && accounts_empty && budgets_empty && categories_empty && people_empty) ==> (res matches Err(e)
            && api_error_view(e) == ApiErrorView::Validation("At least one permission scope must be selected"@)),
        !(transactions_empty && accounts_empty && budgets_empty && categories_empty && people_empty) ==> res is Ok,
{
    if transactions_empty && accounts_empty && budgets_empty && categories_empty && people_empty {
        Err(ApiError::Validation(owned("At least one permission scope must be selected")))
    } else {
        Ok(())
    }
}

/// What the user wants to do with a key.
#[derive(Debug, Clone, Copy, PartialEq, Eq, Structural)]
pub enum KeyAction {
    Access,
    Update,
    Revoke,
}

pub open spec fn key_action_word(a: KeyAction) -> Seq<char> {
    match a {
        KeyAction::Access => "access"@,
        KeyAction::Update => "update"@,
        KeyAction::Revoke => "revoke"@,
    }
}

/// Checks that a key (owned by `owner`) is the user's before `action`.
pub fn check_key_owner(owner: u128, user_id: u128, action: KeyAction) -> (res: Result<(), ApiError>)
    ensures
        owner == user_id ==> res is Ok,
        owner != user_id ==> (res matches Err(e) && api_error_view(e) == ApiErrorView::Forbidden(
            "You don't have permission to "@ + key_action_word(action) + " this API key"@,
        )),
{
    if owner == user_id {
        return Ok(());
    }
    let m = match action {
        KeyAction::Access => owned("You don't have permission to access this API key"),
        KeyAction::Update => owned("You don't have permission to update this API key"),
        KeyAction::Revoke => owned("You don't have permission to revoke this API key"),
    };
    proof {
        reveal_strlit("You don't have permission to access this API key");
        reveal_strlit("You don't have permission to update this API key");
        reveal_strlit("You don't have permission to revoke this API key");
        reveal_strlit("You don't have permission to ");
        reveal_strlit(" this API key");
        reveal_strlit("access");
        reveal_strlit("update");
        reveal_strlit("revoke");
        assert(m@ =~= "You don't have permission to "@ + key_action_word(action) + " this API key"@);
    }
    Err(ApiError::Forbidden(m))
}

/// When a key made at `now` to last `days` days expires (`Duration::days`
/// holds at most `i64::MAX` milliseconds).
pub fn key_expiry(now: Timestamp, days: i64) -> (res: Timestamp)
    requires
        -(i64::MAX / 1000) <= days * 86400 <= i64::MAX / 1000,
        i64::MIN <= now.seconds + days * 86400 <= i64::MAX,
    ensures
        res == (Timestamp { seconds: (now.seconds + days * 86400) as i64, nanos: now.nanos }),
{
    let span: i64 = days * 86400;
    Timestamp { seconds: now.seconds + span, nanos: now.nanos }
}

/// The next step in matching a presented key against the stored keys with
/// its prefix, which are checked in turn.
#[derive(Debug)]
pub enum KeyStep {
    /// The key is this one.
    Accept,
    /// The key is not this one: check the next.
    Next,
    /// Stop with this error.
    Fail(ApiError),
}

/// The step after checking the presented key against one stored key
/// (`matched`, or the check's error) that expires at `expires_at`: a match
/// is accepted unless it expired before `now`.
pub fn key_check_step(matched: Result<bool, ApiError>, expires_at: Option<Timestamp>, now: Timestamp) -> (res: KeyStep)
    ensures
        match matched {
            Err(e) => res == KeyStep::Fail(e),
            Ok(false) => res is Next,
            Ok(true) => match expires_at {
                Some(x) => if is_before(x, now) {
                    res matches KeyStep::Fail(e) && api_error_view(e) == ApiErrorView::Unauthorized(
                        "API key has expired"@,
                    )
                } else {
                    res is Accept
                },
                None => res is Accept,
            },
        },
{
    match matched {
        Err(e) => KeyStep::Fail(e),
        Ok(false) => KeyStep::Next,
        Ok(true) => match expires_at {
            Some(x) => if x.is_before(&now) {
                KeyStep::Fail(ApiError::Unauthorized(owned("API key has expired")))
            } else {
                KeyStep::Accept
            },
            None => KeyStep::Accept,
        },
    }
}

/// The error when no stored key matches the presented one.
pub fn no_matching_key() -> (res: ApiError)
    ensures
        api_error_view(res) == ApiErrorView::Unauthorized("Invalid API key"@),
{
    ApiError::Unauthorized(owned("Invalid API key"))
}

/// The error for a presented key whose format is wrong.
pub fn malformed_key() -> (res: ApiError)
    ensures
        api_error_view(res) == ApiErrorView::Unauthorized("Invalid API key format"@),
{
    ApiError::Unauthorized(owned("Invalid API key format"))
}

} // verus!
