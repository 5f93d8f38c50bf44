//! Data exchanged with bank providers.
use vstd::prelude::*;
use crate::decimal::Decimal;
use crate::models::Timestamp;
use crate::text::{owned, push_str};
use crate::time::{retry_after, retry_after_text};

verus! {

/// OAuth tokens returned by a bank provider.
#[derive(Debug, Clone)]
pub struct BankTokens {
    pub access_token: String,
    pub refresh_token: Option<String>,
    /// When the access token expires
    pub expires_at: Option<Timestamp>,
}

/// A bank account as returned by the provider.
#[derive(Debug, Clone)]
pub struct BankAccount {
    pub account_id: String,
    pub display_name: String,
    pub account_type: String,
    pub currency: String,
    pub account_number: Option<String>,
    pub sort_code: Option<String>,
}

/// A transaction as returned by the provider.
#[derive(Debug, Clone)]
pub struct BankTransaction {
    /// Provider-specific ID (for deduplication)
    pub transaction_id: String,
    pub description: String,
    /// Negative for debits, positive for credits
    pub amount: Decimal,
    pub currency: String,
    pub timestamp: Timestamp,
    /// "DEBIT" or "CREDIT"
    pub transaction_type: String,
    pub merchant_name: Option<String>,
    pub category: Option<String>,
}

/// A balance as returned by the provider.
#[derive(Debug, Clone)]
pub struct BankBalance {
    pub current: Decimal,
    pub available: Option<Decimal>,
    pub currency: String,
    pub updated_at: Timestamp,
}

/// Errors from a bank provider.
#[derive(Debug, Clone)]
pub enum BankProviderError {
    ConfigurationError(String),
    AuthenticationFailed(String),
    TokenExpired,
    RateLimited(Option<Timestamp>),
    ApiError(String),
    NetworkError(String),
    InvalidResponse(String),
}

/// A `BankProviderError` with its message as characters.
pub enum BankErrorView {
    ConfigurationError(Seq<char>),
    AuthenticationFailed(Seq<char>),
    TokenExpired,
    RateLimited(Option<Timestamp>),
    ApiError(Seq<char>),
    NetworkError(Seq<char>),
    InvalidResponse(Seq<char>),
}

pub open spec fn bank_error_view(e: BankProviderError) -> BankErrorView {
    match e {
        BankProviderError::ConfigurationError(m) => BankErrorView::ConfigurationError(m@),
        BankProviderError::AuthenticationFailed(m) => BankErrorView::AuthenticationFailed(m@),
        BankProviderError::TokenExpired => BankErrorView::TokenExpired,
        BankProviderError::RateLimited(t) => BankErrorView::RateLimited(t),
        BankProviderError::ApiError(m) => BankErrorView::ApiError(m@),
        BankProviderError::NetworkError(m) => BankErrorView::NetworkError(m@),
        BankProviderError::InvalidResponse(m) => BankErrorView::InvalidResponse(m@),
    }
}

pub open spec fn bank_error_retryable(e: BankProviderError) -> bool {
    e is NetworkError || e is RateLimited
}

impl BankProviderError {
    /// Whether the failure is transient (network trouble or a rate limit).
    pub fn is_retryable(&self) -> (res: bool)
        ensures
            res == bank_error_retryable(*self),
    {
        match self {
            BankProviderError::NetworkError(_) | BankProviderError::RateLimited(_) => true,
            _ => false,
        }
    }
}

/// The message of an error, as it is displayed.
pub open spec fn bank_error_message(e: BankErrorView) -> Seq<char> {
    match e {
        BankErrorView::ConfigurationError(m) => "Configuration error: "@ + m,
        BankErrorView::AuthenticationFailed(m) => "Authentication failed: "@ + m,
        BankErrorView::TokenExpired => "Token expired — user must re-authenticate"@,
        BankErrorView::RateLimited(t) => "Rate limit exceeded. Retry after: "@ + retry_after_text(t),
        BankErrorView::ApiError(m) => "API error: "@ + m,
        BankErrorView::NetworkError(m) => "Network error: "@ + m,
        BankErrorView::InvalidResponse(m) => "Invalid response from provider: "@ + m,
    }
}

impl BankProviderError {
    /// The message of the error, as it is displayed.
    pub fn message(&self) -> (res: String)
        ensures
            res@ == bank_error_message(bank_error_view(*self)),
    {
        let (mut m, detail) = match self {
            BankProviderError::ConfigurationError(d) => (owned("Configuration error: "), d.clone()),
            BankProviderError::AuthenticationFailed(d) => (owned("Authentication failed: "), d.clone()),
            BankProviderError::TokenExpired => (owned("Token expired — user must re-authenticate"), String::new()),
            BankProviderError::RateLimited(t) => (owned("Rate limit exceeded. Retry after: "), retry_after(*t)),
            BankProviderError::ApiError(d) => (owned("API error: "), d.clone()),
            BankProviderError::NetworkError(d) => (owned("Network error: "), d.clone()),
            BankProviderError::InvalidResponse(d) => (owned("Invalid response from provider: "), d.clone()),
        };
        push_str(&mut m, detail.as_str());
        m
    }
}

} // verus!
