//! The error answered to an API request.
use vstd::prelude::*;

verus! {

/// Errors a service answers with; the HTTP layer maps each variant to a
/// status code.
#[derive(Debug, Clone, PartialEq, Eq)]
pub enum ApiError {
    Internal,
    InternalWithMessage(String),
    Validation(String),
    BadRequest(String),
    Unauthorized(String),
    Forbidden(String),
    NotFound(String),
    External(String),
    Configuration(String),
}

/// An `ApiError` with its message as a character sequence.
pub enum ApiErrorView {
    Internal,
    InternalWithMessage(Seq<char>),
    Validation(Seq<char>),
    BadRequest(Seq<char>),
    Unauthorized(Seq<char>),
    Forbidden(Seq<char>),
    NotFound(Seq<char>),
    External(Seq<char>),
    Configuration(Seq<char>),
}

pub open spec fn api_error_view(e: ApiError) -> ApiErrorView {
    match e {
        ApiError::Internal => ApiErrorView::Internal,
        ApiError::InternalWithMessage(m) => ApiErrorView::InternalWithMessage(m@),
        ApiError::Validation(m) => ApiErrorView::Validation(m@),
        ApiError::BadRequest(m) => ApiErrorView::BadRequest(m@),
        ApiError::Unauthorized(m) => ApiErrorView::Unauthorized(m@),
        ApiError::Forbidden(m) => ApiErrorView::Forbidden(m@),
        ApiError::NotFound(m) => ApiErrorView::NotFound(m@),
        ApiError::External(m) => ApiErrorView::External(m@),
        ApiError::Configuration(m) => ApiErrorView::Configuration(m@),
    }
}

} // verus!
