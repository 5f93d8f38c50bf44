//! The decisions of registration and login, from what the user lookups and
//! the password check answered.
use vstd::prelude::*;
use crate::errors::{api_error_view, ApiError, ApiErrorView};
use crate::text::owned;

verus! {

/// What a lookup of a user answered.
#[derive(Debug)]
pub enum UserLookup {
    Found,
    NotFound,
    Failed(ApiError),
}

/// Checks that no user has the username or the email of a registration,
/// in that order; a failed lookup is passed on.
pub fn check_registration(by_username: UserLookup, by_email: UserLookup) -> (res: Result<(), ApiError>)
    ensures
        match by_username {
            UserLookup::Found => res matches Err(e) && api_error_view(e) == ApiErrorView::Validation(
                "Username already exists"@,
            ),
            UserLookup::Failed(e) => res == Err::<(), ApiError>(e),
            UserLookup::NotFound => match by_email {
                UserLookup::Found => res matches Err(e) && api_error_view(e) == ApiErrorView::Validation(
                    "Email already exists"@,
                ),
                UserLookup::Failed(e) => res == Err::<(), ApiError>(e),
                UserLookup::NotFound => res is Ok,
            },
        },
{
    match by_username {
        UserLookup::Found => {
            return Err(ApiError::Validation(owned("Username already exists")));
        },
        UserLookup::Failed(e) => {
            return Err(e);
        },
        UserLookup::NotFound => {},
    }
    match by_email {
        UserLookup::Found => Err(ApiError::Validation(owned("Email already exists"))),
        UserLookup::Failed(e) => Err(e),
        UserLookup::NotFound => Ok(()),
    }
}

pub open spec fn bad_credentials() -> ApiErrorView {
    ApiErrorView::Unauthorized("Invalid email or password"@)
}

/// Checks a login: the user is looked up by email and the password checked;
/// an unknown email and a wrong password get the same answer, a failed
/// lookup is passed on.
pub fn check_login(by_email: UserLookup, password_valid: bool) -> (res: Result<(), ApiError>)
    ensures
        match by_email {
            UserLookup::NotFound => res matches Err(e) && api_error_view(e) == bad_credentials(),
            UserLookup::Failed(e) => res == Err::<(), ApiError>(e),
            UserLookup::Found => if password_valid {
                res is Ok
            } else {
                res matches Err(e) && api_error_view(e) == bad_credentials()
            },
        },
{
    match by_email {
        UserLookup::NotFound => Err(ApiError::Unauthorized(owned("Invalid email or password"))),
        UserLookup::Failed(e) => Err(e),
        UserLookup::Found => if password_valid {
            Ok(())
        } else {
            Err(ApiError::Unauthorized(owned("Invalid email or password")))
        },
    }
}

} // verus!
