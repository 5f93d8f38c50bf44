//! Data exchanged with split providers (Splitwise, SplitPro).
use vstd::prelude::*;
use crate::models::Timestamp;
use crate::text::{owned, push_str};
use crate::time::{retry_after, retry_after_text};

verus! {

/// An expense as a provider returns it, with every user's shares.
#[derive(Debug, Clone)]
pub struct ExternalExpenseDetail {
    /// ID of the expense on the external platform
    pub external_expense_id: String,
    /// Description/title
    pub description: String,
    /// Total cost as text
    pub cost: String,
    pub currency_code: String,
    pub date: String,
    /// Users involved with their shares
    pub users: Vec<ExternalExpenseUser>,
    /// Provider that owns this expense ("splitwise", "splitpro"); empty
    /// where a provider builds it.
    pub provider_type: String,
}

/// A user of an external expense, with names for display.
#[derive(Debug, Clone)]
pub struct ExternalExpenseUser {
    pub external_user_id: String,
    pub first_name: String,
    pub last_name: String,
    pub paid_share: String,
    pub owed_share: String,
}

/// Request to create an expense on an external platform.
#[derive(Debug, Clone)]
pub struct CreateExternalExpense {
    pub description: String,
    /// Total amount as text (e.g. "100.00")
    pub cost: String,
    pub currency_code: String,
    pub date: Timestamp,
    /// Splitwise group, if any
    pub group_id: Option<i64>,
    /// Everyone involved: the payer and the users who owe
    pub users: Vec<ExpenseUser>,
    pub notes: Option<String>,
}

/// A user of an expense to create or update.
#[derive(Debug, Clone)]
pub struct ExpenseUser {
    pub external_user_id: String,
    /// What this user paid (e.g. "100.00")
    pub paid_share: String,
    /// What this user owes (e.g. "30.00")
    pub owed_share: String,
}

/// Request to update an expense; absent fields stay as they are.
#[derive(Debug, Clone)]
pub struct UpdateExternalExpense {
    pub description: Option<String>,
    pub cost: Option<String>,
    pub date: Option<Timestamp>,
    /// Replaces all users when present
    pub users: Option<Vec<ExpenseUser>>,
    pub notes: Option<String>,
}

/// What a provider answers to a create or an update.
#[derive(Debug, Clone)]
pub struct ExternalExpenseResult {
    pub external_expense_id: String,
    pub external_url: Option<String>,
}

/// Errors from a split provider.
#[derive(Debug, Clone)]
pub enum SplitProviderError {
    AuthenticationFailed(String),
    TokenExpired,
    /// Rate limit exceeded, with the instant after which to retry
    RateLimited(Option<Timestamp>),
    NotFound(String),
    ApiError(String),
    NetworkError(String),
    InvalidResponse(String),
    ConfigurationError(String),
}

/// A `SplitProviderError` with its message as characters.
pub enum SplitErrorView {
    AuthenticationFailed(Seq<char>),
    TokenExpired,
    RateLimited(Option<Timestamp>),
    NotFound(Seq<char>),
    ApiError(Seq<char>),
    NetworkError(Seq<char>),
    InvalidResponse(Seq<char>),
    ConfigurationError(Seq<char>),
}

pub open spec fn split_error_view(e: SplitProviderError) -> SplitErrorView {
    match e {
        SplitProviderError::AuthenticationFailed(m) => SplitErrorView::AuthenticationFailed(m@),
        SplitProviderError::TokenExpired => SplitErrorView::TokenExpired,
        SplitProviderError::RateLimited(t) => SplitErrorView::RateLimited(t),
        SplitProviderError::NotFound(m) => SplitErrorView::NotFound(m@),
        SplitProviderError::ApiError(m) => SplitErrorView::ApiError(m@),
        SplitProviderError::NetworkError(m) => SplitErrorView::NetworkError(m@),
        SplitProviderError::InvalidResponse(m) => SplitErrorView::InvalidResponse(m@),
        SplitProviderError::ConfigurationError(m) => SplitErrorView::ConfigurationError(m@),
    }
}

pub open spec fn split_error_retryable(e: SplitProviderError) -> bool {
    e is NetworkError || e is RateLimited || e is TokenExpired
}

pub open spec fn split_error_needs_reauth(e: SplitProviderError) -> bool {
    e is AuthenticationFailed || e is TokenExpired
}

impl SplitProviderError {
    /// Whether the call may succeed when tried again.
    pub fn is_retryable(&self) -> (res: bool)
        ensures
            res == split_error_retryable(*self),
    {
        match self {
            SplitProviderError::NetworkError(_)
            | SplitProviderError::RateLimited(_)
            | SplitProviderError::TokenExpired => true,
            _ => false,
        }
    }

    /// Whether the user must authenticate again.
    pub fn requires_reauth(&self) -> (res: bool)
        ensures
            res == split_error_needs_reauth(*self),
    {
        match self {
            SplitProviderError::AuthenticationFailed(_) | SplitProviderError::TokenExpired => true,
            _ => false,
        }
    }
}

/// The message of an error, as it is displayed.
pub open spec fn split_error_message(e: SplitErrorView) -> Seq<char> {
    match e {
        SplitErrorView::AuthenticationFailed(m) => "Authentication failed: "@ + m,
        SplitErrorView::TokenExpired => "Access token expired"@,
        SplitErrorView::RateLimited(t) => "Rate limit exceeded. Retry after: "@ + retry_after_text(t),
        SplitErrorView::NotFound(m) => "Resource not found: "@ + m,
        SplitErrorView::ApiError(m) => "API error: "@ + m,
        SplitErrorView::NetworkError(m) => "Network error: "@ + m,
        SplitErrorView::InvalidResponse(m) => "Invalid response from provider: "@ + m,
        SplitErrorView::ConfigurationError(m) => "Configuration error: "@ + m,
    }
}

impl SplitProviderError {
    /// The message of the error, as it is displayed.
    pub fn message(&self) -> (res: String)
        ensures
            res@ == split_error_message(split_error_view(*self)),
    {
        let (mut m, detail) = match self {
            SplitProviderError::AuthenticationFailed(d) => (owned("Authentication failed: "), d.clone()),
            SplitProviderError::TokenExpired => (owned("Access token expired"), String::new()),
            SplitProviderError::RateLimited(t) => (owned("Rate limit exceeded. Retry after: "), retry_after(*t)),
            SplitProviderError::NotFound(d) => (owned("Resource not found: "), d.clone()),
            SplitProviderError::ApiError(d) => (owned("API error: "), d.clone()),
            SplitProviderError::NetworkError(d) => (owned("Network error: "), d.clone()),
            SplitProviderError::InvalidResponse(d) => (owned("Invalid response from provider: "), d.clone()),
            SplitProviderError::ConfigurationError(d) => (owned("Configuration error: "), d.clone()),
        };
        push_str(&mut m, detail.as_str());
        m
    }
}

} // verus!
