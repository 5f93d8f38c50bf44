//! Trading 212: the request that values the user's portfolio, and how its
//! answer is judged.
use vstd::prelude::*;
use crate::json::{field_str, field_str_or, JsonValue};
use crate::services::investment_provider::types::{investment_error_view, InvestmentErrorView, InvestmentProviderError};
use crate::text::{owned, push_str, str_eq};
use crate::utils::encryption::{base64_encode, base64_text};
use vstd::utf8::encode_utf8;

verus! {

/// The server of an environment: "demo", or the live one for anything
/// else.
pub open spec fn t212_base_url(environment: Seq<char>) -> Seq<char> {
    if environment == "demo"@ {
        "https://demo.trading212.com"@
    } else {
        "https://live.trading212.com"@
    }
}

/// HTTP basic authentication with the key and the secret.
pub open spec fn basic_auth(api_key: Seq<char>, api_secret: Seq<char>) -> Seq<char> {
    "Basic "@ + base64_text(encode_utf8(api_key + ":"@ + api_secret))
}

/// The request for the account's cash, which values the portfolio.
#[derive(Debug, Clone)]
pub struct PortfolioRequest {
    pub url: String,
    pub auth_header: String,
}

/// The length of the credentials line that basic authentication encodes.
pub open spec fn auth_fits(api_key: Seq<char>, api_secret: Seq<char>) -> bool {
    encode_utf8(api_key + ":"@ + api_secret).len() <= usize::MAX / 2
}

pub struct Trading212Provider;

impl Trading212Provider {
    /// The server of an environment.
    pub fn base_url(environment: &str) -> (res: &'static str)
        ensures
            res@ == t212_base_url(environment@),
    {
        if str_eq(environment, "demo") {
            "https://demo.trading212.com"
        } else {
            "https://live.trading212.com"
        }
    }

    /// The `Authorization` header for the key and the secret.
    pub fn build_auth_header(api_key: &str, api_secret: &str) -> (res: String)
        requires
            auth_fits(api_key@, api_secret@),
        ensures
            res@ == basic_auth(api_key@, api_secret@),
    {
        let mut line = owned(api_key);
        push_str(&mut line, ":");
        push_str(&mut line, api_secret);
        let encoded = base64_encode(line.as_str().as_bytes());
        let mut header = owned("Basic ");
        push_str(&mut header, encoded.as_str());
        header
    }

    /// The valuation request for decrypted credentials, which hold
    /// `api_key` and `api_secret` (both required) and `environment`
    /// ("live" where absent).
    pub fn portfolio_request(credentials: &JsonValue) -> (res: Result<PortfolioRequest, InvestmentProviderError>)
        requires
            (field_str(*credentials, "api_key"@) matches Some(k) && field_str(*credentials, "api_secret"@) matches Some(s))
                ==> auth_fits(field_str(*credentials, "api_key"@)->0, field_str(*credentials, "api_secret"@)->0),
        ensures
            match field_str(*credentials, "api_key"@) {
                None => res matches Err(e) && investment_error_view(e) == InvestmentErrorView::InvalidResponse(
                    "Missing api_key in credentials"@,
                ),
                Some(k) => match field_str(*credentials, "api_secret"@) {
                    None => res matches Err(e) && investment_error_view(e) == InvestmentErrorView::InvalidResponse(
                        "Missing api_secret in credentials"@,
                    ),
                    Some(s) => res matches Ok(r) && r.auth_header@ == basic_auth(k, s) && r.url@ == t212_base_url(
                        field_str_or(*credentials, "environment"@, "live"@),
                    ) + "/api/v0/equity/account/cash"@,
                },
            },
    {
        let api_key = match crate::json::str_field(credentials, "api_key") {
            Some(k) => k,
            None => {
                return Err(InvestmentProviderError::InvalidResponse(owned("Missing api_key in credentials")));
            },
        };
        let api_secret = match crate::json::str_field(credentials, "api_secret") {
            Some(s) => s,
            None => {
                return Err(InvestmentProviderError::InvalidResponse(owned("Missing api_secret in credentials")));
            },
        };
        let environment = crate::json::str_field_or(credentials, "environment", "live");
        let mut url = owned(Trading212Provider::base_url(environment.as_str()));
        push_str(&mut url, "/api/v0/equity/account/cash");
        let auth_header = Trading212Provider::build_auth_header(api_key, api_secret);
        Ok(PortfolioRequest { url, auth_header })
    }

    /// Judges the status of the answer: a success passes; 401 means the
    /// key was refused, 429 a rate limit; anything else is an API error.
    pub fn check_status(status: u16, status_text: &str, body: &str) -> (res: Result<(), InvestmentProviderError>)
        ensures
            200 <= status < 300 ==> res is Ok,
            status == 401 ==> (res matches Err(e) && investment_error_view(e) == InvestmentErrorView::AuthenticationFailed(
                "Trading 212 returned 401: "@ + body@,
            )),
            status == 429 ==> res == Err::<(), InvestmentProviderError>(InvestmentProviderError::RateLimited(None)),
            !(200 <= status < 300) && status != 401 && status != 429 ==> (res matches Err(e) && investment_error_view(e)
                == InvestmentErrorView::ApiError("Trading 212 returned "@ + status_text@ + ": "@ + body@)),
    {
        if 200 <= status && status < 300 {
            return Ok(());
        }
        if status == 401 {
            let mut m = owned("Trading 212 returned 401: ");
            push_str(&mut m, body);
            return Err(InvestmentProviderError::AuthenticationFailed(m));
        }
        if status == 429 {
            return Err(InvestmentProviderError::RateLimited(None));
        }
        let mut m = owned("Trading 212 returned ");
        push_str(&mut m, status_text);
        push_str(&mut m, ": ");
        push_str(&mut m, body);
        Err(InvestmentProviderError::ApiError(m))
    }
}

} // verus!
