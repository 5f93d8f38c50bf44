//! TrueLayer (Open Banking): environments, endpoints, the authorization
//! link, the reading of error answers and of account listings.
use vstd::prelude::*;
use crate::decimal::Decimal;
use crate::models::Timestamp;
use crate::services::bank_provider::types::{bank_error_view, BankAccount, BankBalance, BankErrorView, BankProviderError, BankTokens, BankTransaction};
use crate::time::{format_utc, formatted_utc, parse_rfc3339, parsed_rfc3339};
use crate::text::{ascii_lower_char, contains_str, has_substring, owned, push_str, str_eq, to_lowercase, unicode_lowercase};
use crate::url::{percent_encode, url_encode};

verus! {

/// The TrueLayer environment a provider talks to.
#[derive(Debug, Clone, Copy, PartialEq, Eq, Structural)]
pub enum TrueLayerEnvironment {
    Sandbox,
    Production,
}

pub open spec fn auth_base(e: TrueLayerEnvironment) -> Seq<char> {
    match e {
        TrueLayerEnvironment::Sandbox => "https://auth.truelayer-sandbox.com"@,
        TrueLayerEnvironment::Production => "https://auth.truelayer.com"@,
    }
}

pub open spec fn api_base(e: TrueLayerEnvironment) -> Seq<char> {
    match e {
        TrueLayerEnvironment::Sandbox => "https://api.truelayer-sandbox.com"@,
        TrueLayerEnvironment::Production => "https://api.truelayer.com"@,
    }
}

/// The environment a setting selects: "production" or "prod" (in any
/// case) selects production; anything else, or no setting, the sandbox.
pub open spec fn environment_of(setting: Option<Seq<char>>) -> TrueLayerEnvironment {
    let v = unicode_lowercase(
        match setting {
            Some(s) => s,
            None => "sandbox"@,
        },
    );
    if v == "production"@ || v == "prod"@ {
        TrueLayerEnvironment::Production
    } else {
        TrueLayerEnvironment::Sandbox
    }
}

impl TrueLayerEnvironment {
    /// The base URL of the authorization server.
    pub fn auth_url(&self) -> (res: &'static str)
        ensures
            res@ == auth_base(*self),
    {
        match self {
            TrueLayerEnvironment::Sandbox => "https://auth.truelayer-sandbox.com",
            TrueLayerEnvironment::Production => "https://auth.truelayer.com",
        }
    }

    /// The base URL of the Data API.
    pub fn api_url(&self) -> (res: &'static str)
        ensures
            res@ == api_base(*self),
    {
        match self {
            TrueLayerEnvironment::Sandbox => "https://api.truelayer-sandbox.com",
            TrueLayerEnvironment::Production => "https://api.truelayer.com",
        }
    }

    /// The environment named by the `TRUELAYER_ENVIRONMENT` setting.
    pub fn from_setting(setting: Option<&str>) -> (res: TrueLayerEnvironment)
        ensures
            match setting {
                Some(s) => vstd::utf8::is_ascii_chars(s@) ==> unicode_lowercase(s@) == s@.map_values(
                    |c: char| ascii_lower_char(c),
                ),
                None => true,
            },
            res == environment_of(
                match setting {
                    Some(s) => Some(s@),
                    None => None,
                },
            ),
    {
        let v = match setting {
            Some(s) => to_lowercase(s),
            None => to_lowercase("sandbox"),
        };
        if str_eq(v.as_str(), "production") || str_eq(v.as_str(), "prod") {
            TrueLayerEnvironment::Production
        } else {
            TrueLayerEnvironment::Sandbox
        }
    }
}

/// A TrueLayer client's configuration (its HTTP client lives in the
/// application).
#[derive(Debug, Clone)]
pub struct TrueLayerProvider {
    pub client_id: String,
    pub client_secret: String,
    pub environment: TrueLayerEnvironment,
}

/// The scopes asked for: account holder info, accounts, balances,
/// transactions and a refresh token.
pub open spec fn truelayer_scopes() -> Seq<char> {
    "info accounts balance transactions offline_access"@
}

/// The bank groups offered: the mock bank in the sandbox, the Open Banking
/// groups of several countries in production.
pub open spec fn truelayer_providers(e: TrueLayerEnvironment) -> Seq<char> {
    match e {
        TrueLayerEnvironment::Sandbox => "uk-cs-mock uk-ob-all"@,
        TrueLayerEnvironment::Production => "uk-ob-all ie-ob-all fr-ob-all de-ob-all es-ob-all it-ob-all nl-ob-all pl-ob-all pt-ob-all"@,
    }
}

pub open spec fn enc(s: Seq<char>) -> Seq<char> {
    percent_encode(vstd::utf8::encode_utf8(s))
}

/// The authorization link.
pub open spec fn auth_link(p: TrueLayerProvider, state: Seq<char>, redirect_uri: Seq<char>) -> Seq<char> {
    auth_base(p.environment) + "/?response_type=code&client_id="@ + enc(p.client_id@) + "&redirect_uri="@
        + enc(redirect_uri) + "&scope="@ + enc(truelayer_scopes()) + "&state="@ + enc(state) + "&providers="@
        + enc(truelayer_providers(p.environment))
}

/// How an answer of the Data API is classified: 401 means an expired token
/// when the error code mentions "expired" or "invalid_token", else failed
/// authentication; 429 a rate limit; any other status outside 200–299 an
/// API error; otherwise success.
pub open spec fn answer_error(status: u16, status_text: Seq<char>, body: Seq<char>, error_code: Option<Seq<char>>) -> Option<BankErrorView> {
    if status == 401 {
        if error_code matches Some(c) && (has_substring(c, "expired"@) || has_substring(c, "invalid_token"@)) {
            Some(BankErrorView::TokenExpired)
        } else {
            Some(BankErrorView::AuthenticationFailed("HTTP 401: "@ + body))
        }
    } else if status == 429 {
        Some(BankErrorView::RateLimited(None))
    } else if !(200 <= status <= 299) {
        Some(BankErrorView::ApiError("HTTP "@ + status_text + ": "@ + body))
    } else {
        None
    }
}

/// An account of a listing, with its defaults ("Unknown", "UNKNOWN", "GBP").
#[derive(Debug, Clone)]
pub struct TrueLayerAccount {
    pub account_id: String,
    pub display_name: Option<String>,
    pub account_type: Option<String>,
    pub currency: Option<String>,
    pub account_number: Option<TrueLayerAccountNumber>,
}

#[derive(Debug, Clone)]
pub struct TrueLayerAccountNumber {
    pub number: Option<String>,
    pub sort_code: Option<String>,
}

pub open spec fn text_or(o: Option<String>, default: Seq<char>) -> Seq<char> {
    match o {
        Some(s) => s@,
        None => default,
    }
}

pub open spec fn opt_text(o: Option<String>) -> Option<Seq<char>> {
    match o {
        Some(s) => Some(s@),
        None => None,
    }
}

/// `b` is the account `a` of a listing, read.
pub open spec fn account_read(b: BankAccount, a: TrueLayerAccount) -> bool {
    &&& b.account_id@ == a.account_id@
    &&& b.display_name@ == text_or(a.display_name, "Unknown"@)
    &&& b.account_type@ == text_or(a.account_type, "UNKNOWN"@)
    &&& b.currency@ == text_or(a.currency, "GBP"@)
    &&& opt_text(b.account_number) == match a.account_number {
        Some(n) => opt_text(n.number),
        None => None,
    }
    &&& opt_text(b.sort_code) == match a.account_number {
        Some(n) => opt_text(n.sort_code),
        None => None,
    }
}

fn text_or_default(o: &Option<String>, default: &str) -> (res: String)
    ensures
        res@ == text_or(*o, default@),
{
    match o {
        Some(s) => s.clone(),
        None => owned(default),
    }
}

fn copy_opt(o: &Option<String>) -> (res: Option<String>)
    ensures
        opt_text(res) == opt_text(*o),
{
    match o {
        Some(s) => Some(s.clone()),
        None => None,
    }
}

impl TrueLayerProvider {
    /// A provider from its settings: the client ID and secret are required;
    /// the environment defaults to the sandbox.
    pub fn from_settings(
        client_id: Option<String>,
        client_secret: Option<String>,
        environment: Option<&str>,
    ) -> (res: Result<TrueLayerProvider, BankProviderError>)
        ensures
            client_id is None ==> (res matches Err(e) && bank_error_view(e) == BankErrorView::ConfigurationError(
                "TRUELAYER_CLIENT_ID not set"@,
            )),
            client_id is Some && client_secret is None ==> (res matches Err(e) && bank_error_view(e)
                == BankErrorView::ConfigurationError("TRUELAYER_CLIENT_SECRET not set"@)),
            match (client_id, client_secret) {
                (Some(i), Some(s)) => res matches Ok(p) && p.client_id@ == i@ && p.client_secret@ == s@
                    && p.environment == environment_of(
                    match environment {
                        Some(e) => Some(e@),
                        None => None,
                    },
                ),
                _ => true,
            },
    {
        let id = match client_id {
            Some(i) => i,
            None => {
                return Err(BankProviderError::ConfigurationError(owned("TRUELAYER_CLIENT_ID not set")));
            },
        };
        let secret = match client_secret {
            Some(s) => s,
            None => {
                return Err(BankProviderError::ConfigurationError(owned("TRUELAYER_CLIENT_SECRET not set")));
            },
        };
        Ok(TrueLayerProvider { client_id: id, client_secret: secret, environment: TrueLayerEnvironment::from_setting(environment) })
    }

    /// The token endpoint.
    pub fn token_url(&self) -> (res: String)
        ensures
            res@ == auth_base(self.environment) + "/connect/token"@,
    {
        let mut s = owned(self.environment.auth_url());
        push_str(&mut s, "/connect/token");
        s
    }

    /// A Data API endpoint.
    pub fn data_url(&self, path: &str) -> (res: String)
        ensures
            res@ == api_base(self.environment) + "/data/v1"@ + path@,
    {
        let mut s = owned(self.environment.api_url());
        push_str(&mut s, "/data/v1");
        push_str(&mut s, path);
        s
    }

    /// The link that starts the user's authorization at their bank.
    pub fn generate_auth_url(&self, state: &str, redirect_uri: &str) -> (res: Result<String, BankProviderError>)
        ensures
            res matches Ok(u) && u@ == auth_link(*self, state@, redirect_uri@),
    {
        let providers = match self.environment {
            TrueLayerEnvironment::Sandbox => "uk-cs-mock uk-ob-all",
            TrueLayerEnvironment::Production => "uk-ob-all ie-ob-all fr-ob-all de-ob-all es-ob-all it-ob-all nl-ob-all pl-ob-all pt-ob-all",
        };
        let mut u = owned(self.environment.auth_url());
        push_str(&mut u, "/?response_type=code&client_id=");
        push_str(&mut u, url_encode(self.client_id.as_str()).as_str());
        push_str(&mut u, "&redirect_uri=");
        push_str(&mut u, url_encode(redirect_uri).as_str());
        push_str(&mut u, "&scope=");
        push_str(&mut u, url_encode("info accounts balance transactions offline_access").as_str());
        push_str(&mut u, "&state=");
        push_str(&mut u, url_encode(state).as_str());
        push_str(&mut u, "&providers=");
        push_str(&mut u, url_encode(providers).as_str());
        Ok(u)
    }

    /// Classifies an answer of the Data API (`answer_error`); `error_code`
    /// is the `error` member of the body, where it reads as TrueLayer's
    /// error answer.
    pub fn check_answer(status: u16, status_text: &str, body: &str, error_code: Option<&str>) -> (res: Result<(), BankProviderError>)
        ensures
            match answer_error(
                status,
                status_text@,
                body@,
                match error_code {
                    Some(c) => Some(c@),
                    None => None,
                },
            ) {
                Some(v) => res matches Err(e) && bank_error_view(e) == v,
                None => res is Ok,
            },
    {
        if status == 401 {
            let expired = match error_code {
                Some(c) => contains_str(c, "expired") || contains_str(c, "invalid_token"),
                None => false,
            };
            if expired {
                return Err(BankProviderError::TokenExpired);
            }
            let mut m = owned("HTTP 401: ");
            push_str(&mut m, body);
            return Err(BankProviderError::AuthenticationFailed(m));
        }
        if status == 429 {
            return Err(BankProviderError::RateLimited(None));
        }
        if status < 200 || status > 299 {
            let mut m = owned("HTTP ");
            push_str(&mut m, status_text);
            push_str(&mut m, ": ");
            push_str(&mut m, body);
            return Err(BankProviderError::ApiError(m));
        }
        Ok(())
    }

    /// The error for a failed token exchange.
    pub fn exchange_error(status_text: &str, body: &str) -> (res: BankProviderError)
        ensures
            bank_error_view(res) == BankErrorView::AuthenticationFailed(
                "Token exchange failed: HTTP "@ + status_text@ + ": "@ + body@,
            ),
    {
        let mut m = owned("Token exchange failed: HTTP ");
        push_str(&mut m, status_text);
        push_str(&mut m, ": ");
        push_str(&mut m, body);
        BankProviderError::AuthenticationFailed(m)
    }

    /// The error for a failed token refresh: with 400 or 401 the consent has
    /// expired.
    pub fn refresh_error(status: u16, status_text: &str, body: &str) -> (res: BankProviderError)
        ensures
            bank_error_view(res) == if status == 400 || status == 401 {
                BankErrorView::TokenExpired
            } else {
                BankErrorView::AuthenticationFailed("Token refresh failed: HTTP "@ + status_text@ + ": "@ + body@)
            },
    {
        if status == 400 || status == 401 {
            BankProviderError::TokenExpired
        } else {
            let mut m = owned("Token refresh failed: HTTP ");
            push_str(&mut m, status_text);
            push_str(&mut m, ": ");
            push_str(&mut m, body);
            BankProviderError::AuthenticationFailed(m)
        }
    }

    /// The accounts of a listing, read (`account_read`).
    pub fn accounts_from_listing(results: &Vec<TrueLayerAccount>) -> (res: Vec<BankAccount>)
        ensures
            res@.len() == results@.len(),
            forall|k: int| 0 <= k < results@.len() ==> account_read(#[trigger] res@[k], results@[k]),
    {
        let mut out: Vec<BankAccount> = Vec::new();
        let mut k: usize = 0;
        while k < results.len()
            invariant
                k <= results@.len(),
                out@.len() == k,
                forall|j: int| 0 <= j < k ==> account_read(#[trigger] out@[j], results@[j]),
            decreases results@.len() - k,
        {
            let a = &results[k];
            let (number, sort_code) = match &a.account_number {
                Some(n) => (copy_opt(&n.number), copy_opt(&n.sort_code)),
                None => (None, None),
            };
            out.push(BankAccount {
                account_id: a.account_id.clone(),
                display_name: text_or_default(&a.display_name, "Unknown"),
                account_type: text_or_default(&a.account_type, "UNKNOWN"),
                currency: text_or_default(&a.currency, "GBP"),
                account_number: number,
                sort_code,
            });
            k = k + 1;
        }
        out
    }
}

/// A transaction of a listing, its amount already rounded to two decimals.
#[derive(Debug, Clone)]
pub struct TrueLayerTransaction {
    pub transaction_id: String,
    pub timestamp: String,
    pub description: Option<String>,
    pub amount: Decimal,
    pub currency: String,
    pub transaction_type: String,
    pub merchant_name: Option<String>,
    pub transaction_category: Option<String>,
}

/// A balance of a listing, its amounts already rounded to two decimals.
#[derive(Debug, Clone)]
pub struct TrueLayerBalance {
    pub current: Decimal,
    pub available: Option<Decimal>,
    pub currency: String,
    pub update_timestamp: Option<String>,
}

/// The instant of an RFC 3339 text, or `now` where it does not read.
pub open spec fn time_or(text: Seq<char>, now: Timestamp) -> Timestamp {
    match parsed_rfc3339(text) {
        Some(t) => t,
        None => now,
    }
}

/// `b` is the transaction `t` of a listing, read at `now`.
pub open spec fn transaction_read(b: BankTransaction, t: TrueLayerTransaction, now: Timestamp) -> bool {
    &&& b.transaction_id@ == t.transaction_id@
    &&& b.description@ == text_or(t.description, "No description"@)
    &&& b.amount == t.amount
    &&& b.currency@ == t.currency@
    &&& b.timestamp == time_or(t.timestamp@, now)
    &&& b.transaction_type@ == t.transaction_type@
    &&& opt_text(b.merchant_name) == opt_text(t.merchant_name)
    &&& opt_text(b.category) == opt_text(t.transaction_category)
}

impl TrueLayerProvider {
    /// The form that exchanges an authorization code for tokens.
    pub fn code_exchange_form(&self, code: &str, redirect_uri: &str) -> (res: Vec<(String, String)>)
        ensures
            res@.len() == 5,
            res@[0].0@ == "grant_type"@ && res@[0].1@ == "authorization_code"@,
            res@[1].0@ == "client_id"@ && res@[1].1@ == self.client_id@,
            res@[2].0@ == "client_secret"@ && res@[2].1@ == self.client_secret@,
            res@[3].0@ == "redirect_uri"@ && res@[3].1@ == redirect_uri@,
            res@[4].0@ == "code"@ && res@[4].1@ == code@,
    {
        let mut v: Vec<(String, String)> = Vec::new();
        v.push((owned("grant_type"), owned("authorization_code")));
        v.push((owned("client_id"), self.client_id.clone()));
        v.push((owned("client_secret"), self.client_secret.clone()));
        v.push((owned("redirect_uri"), owned(redirect_uri)));
        v.push((owned("code"), owned(code)));
        v
    }

    /// The form that refreshes an access token.
    pub fn refresh_form(&self, refresh_token: &str) -> (res: Vec<(String, String)>)
        ensures
            res@.len() == 4,
            res@[0].0@ == "grant_type"@ && res@[0].1@ == "refresh_token"@,
            res@[1].0@ == "client_id"@ && res@[1].1@ == self.client_id@,
            res@[2].0@ == "client_secret"@ && res@[2].1@ == self.client_secret@,
            res@[3].0@ == "refresh_token"@ && res@[3].1@ == refresh_token@,
    {
        let mut v: Vec<(String, String)> = Vec::new();
        v.push((owned("grant_type"), owned("refresh_token")));
        v.push((owned("client_id"), self.client_id.clone()));
        v.push((owned("client_secret"), self.client_secret.clone()));
        v.push((owned("refresh_token"), owned(refresh_token)));
        v
    }

    /// The tokens of a token answer received at `now`: the access token
    /// expires `expires_in` seconds later, where the answer says so.
    pub fn tokens_from_answer(access_token: String, refresh_token: Option<String>, expires_in: Option<i64>, now: Timestamp) -> (res:
        BankTokens)
        requires
            expires_in matches Some(x) ==> -(i64::MAX / 1000) <= x <= i64::MAX / 1000 && i64::MIN <= now.seconds + x
                <= i64::MAX,
        ensures
            res.access_token@ == access_token@,
            opt_text(res.refresh_token) == opt_text(refresh_token),
            match expires_in {
                Some(x) => res.expires_at == Some(Timestamp { seconds: (now.seconds + x) as i64, nanos: now.nanos }),
                None => res.expires_at is None,
            },
    {
        let expires_at = match expires_in {
            Some(x) => Some(Timestamp { seconds: now.seconds + x, nanos: now.nanos }),
            None => None,
        };
        BankTokens { access_token, refresh_token, expires_at }
    }

    /// The Data API address of the transactions of an account between two
    /// instants (written `%Y-%m-%dT%H:%M:%SZ`); `None` where an instant
    /// has no calendar date.
    pub fn transactions_url(&self, account_id: &str, from: Timestamp, to: Timestamp) -> (res: Option<String>)
        ensures
            match (formatted_utc(from, "%Y-%m-%dT%H:%M:%SZ"@), formatted_utc(to, "%Y-%m-%dT%H:%M:%SZ"@)) {
                (Some(f), Some(t)) => res matches Some(u) && u@ == api_base(self.environment) + "/data/v1"@
                    + "/accounts/"@ + account_id@ + "/transactions"@ + "?from="@ + f + "&to="@ + t,
                _ => res is None,
            },
    {
        proof {
            reveal_strlit("%Y-%m-%dT%H:%M:%SZ");
        }
        let f = match format_utc(from, "%Y-%m-%dT%H:%M:%SZ") {
            Some(x) => x,
            None => {
                return None;
            },
        };
        let t = match format_utc(to, "%Y-%m-%dT%H:%M:%SZ") {
            Some(x) => x,
            None => {
                return None;
            },
        };
        let mut path = owned("/accounts/");
        push_str(&mut path, account_id);
        push_str(&mut path, "/transactions");
        let mut u = self.data_url(path.as_str());
        push_str(&mut u, "?from=");
        push_str(&mut u, f.as_str());
        push_str(&mut u, "&to=");
        push_str(&mut u, t.as_str());
        Some(u)
    }

    /// The Data API address of the balance of an account.
    pub fn balance_url(&self, account_id: &str) -> (res: String)
        ensures
            res@ == api_base(self.environment) + "/data/v1"@ + "/accounts/"@ + account_id@ + "/balance"@,
    {
        let mut path = owned("/accounts/");
        push_str(&mut path, account_id);
        push_str(&mut path, "/balance");
        self.data_url(path.as_str())
    }

    /// The transactions of a listing, read at `now` (`transaction_read`):
    /// a missing description reads "No description", an unreadable time
    /// reads as `now`.
    pub fn transactions_from_listing(results: &Vec<TrueLayerTransaction>, now: Timestamp) -> (res: Vec<BankTransaction>)
        ensures
            res@.len() == results@.len(),
            forall|k: int| 0 <= k < results@.len() ==> transaction_read(#[trigger] res@[k], results@[k], now),
    {
        let mut out: Vec<BankTransaction> = Vec::new();
        let mut k: usize = 0;
        while k < results.len()
            invariant
                k <= results@.len(),
                out@.len() == k,
                forall|j: int| 0 <= j < k ==> transaction_read(#[trigger] out@[j], results@[j], now),
            decreases results@.len() - k,
        {
            let t = &results[k];
            let timestamp = match parse_rfc3339(t.timestamp.as_str()) {
                Some(x) => x,
                None => now,
            };
            out.push(
                BankTransaction {
                    transaction_id: t.transaction_id.clone(),
                    description: text_or_default(&t.description, "No description"),
                    amount: t.amount,
                    currency: t.currency.clone(),
                    timestamp,
                    transaction_type: t.transaction_type.clone(),
                    merchant_name: copy_opt(&t.merchant_name),
                    category: copy_opt(&t.transaction_category),
                },
            );
            k = k + 1;
        }
        out
    }

    /// The balance of a listing read at `now`: its first entry, which is
    /// required; an absent or unreadable update time reads as `now`.
    pub fn balance_from_listing(results: &Vec<TrueLayerBalance>, now: Timestamp) -> (res: Result<BankBalance, BankProviderError>)
        ensures
            results@.len() == 0 ==> (res matches Err(e) && bank_error_view(e) == BankErrorView::InvalidResponse(
                "No balance data returned"@,
            )),
            results@.len() > 0 ==> (res matches Ok(b) && {
                let first = results@[0];
                &&& b.current == first.current
                &&& b.available == first.available
                &&& b.currency@ == first.currency@
                &&& b.updated_at == match first.update_timestamp {
                    Some(t) => time_or(t@, now),
                    None => now,
                }
            }),
    {
        if results.len() == 0 {
            return Err(BankProviderError::InvalidResponse(owned("No balance data returned")));
        }
        let first = &results[0];
        let updated_at = match &first.update_timestamp {
            Some(t) => match parse_rfc3339(t.as_str()) {
                Some(x) => x,
                None => now,
            },
            None => now,
        };
        Ok(BankBalance { current: first.current, available: first.available, currency: first.currency.clone(), updated_at })
    }
}

} // verus!
