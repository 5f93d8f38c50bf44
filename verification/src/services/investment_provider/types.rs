//! What a brokerage answers: a valuation of the portfolio, or an error.
use vstd::prelude::*;
use crate::decimal::Decimal;
use crate::models::Timestamp;
use crate::text::{owned, push_str};
use crate::time::{retry_after, retry_after_text};

verus! {

/// The value of a portfolio at one moment.
#[derive(Debug, Clone)]
pub struct PortfolioSnapshot {
    /// The value of the stocks held, cash in pies included
    pub stock_value: Decimal,
    /// The amount paid in
    pub invested_amount: Decimal,
    pub currency: String,
    pub timestamp: Timestamp,
}

/// What goes wrong when asking a brokerage.
#[derive(Debug, Clone, PartialEq, Eq)]
pub enum InvestmentProviderError {
    AuthenticationFailed(String),
    /// With the instant after which to retry, where the brokerage gives one
    RateLimited(Option<Timestamp>),
    ApiError(String),
    NetworkError(String),
    InvalidResponse(String),
}

/// An `InvestmentProviderError` with its text as a character sequence.
pub enum InvestmentErrorView {
    AuthenticationFailed(Seq<char>),
    RateLimited(Option<Timestamp>),
    ApiError(Seq<char>),
    NetworkError(Seq<char>),
    InvalidResponse(Seq<char>),
}

pub open spec fn investment_error_view(e: InvestmentProviderError) -> InvestmentErrorView {
    match e {
        InvestmentProviderError::AuthenticationFailed(m) => InvestmentErrorView::AuthenticationFailed(m@),
        InvestmentProviderError::RateLimited(t) => InvestmentErrorView::RateLimited(t),
        InvestmentProviderError::ApiError(m) => InvestmentErrorView::ApiError(m@),
        InvestmentProviderError::NetworkError(m) => InvestmentErrorView::NetworkError(m@),
        InvestmentProviderError::InvalidResponse(m) => InvestmentErrorView::InvalidResponse(m@),
    }
}

impl InvestmentProviderError {
    /// Whether the call may succeed when tried again: after a network error
    /// or a rate limit.
    pub fn is_retryable(&self) -> (res: bool)
        ensures
            res == (*self is NetworkError || *self is RateLimited),
    {
        match self {
            InvestmentProviderError::NetworkError(_) => true,
            InvestmentProviderError::RateLimited(_) => true,
            _ => false,
        }
    }
}

/// The message of an error, as it is displayed.
pub open spec fn investment_error_message(e: InvestmentErrorView) -> Seq<char> {
    match e {
        InvestmentErrorView::AuthenticationFailed(m) => "Authentication failed: "@ + m,
        InvestmentErrorView::RateLimited(t) => "Rate limit exceeded. Retry after: "@ + retry_after_text(t),
        InvestmentErrorView::ApiError(m) => "API error: "@ + m,
        InvestmentErrorView::NetworkError(m) => "Network error: "@ + m,
        InvestmentErrorView::InvalidResponse(m) => "Invalid response from provider: "@ + m,
    }
}

impl InvestmentProviderError {
    /// The message of the error, as it is displayed.
    pub fn message(&self) -> (res: String)
        ensures
            res@ == investment_error_message(investment_error_view(*self)),
    {
        let (mut m, detail) = match self {
            InvestmentProviderError::AuthenticationFailed(d) => (owned("Authentication failed: "), d.clone()),
            InvestmentProviderError::RateLimited(t) => (owned("Rate limit exceeded. Retry after: "), retry_after(*t)),
            InvestmentProviderError::ApiError(d) => (owned("API error: "), d.clone()),
            InvestmentProviderError::NetworkError(d) => (owned("Network error: "), d.clone()),
            InvestmentProviderError::InvalidResponse(d) => (owned("Invalid response from provider: "), d.clone()),
        };
        push_str(&mut m, detail.as_str());
        m
    }
}

} // verus!
