//! Splitwise's OAuth2 flow: the authorization link, the token requests,
//! how their answers are judged, and the credentials stored afterwards.
use vstd::prelude::*;
use crate::json::{entry_lookup, field_str, json_get, JsonMember, JsonNumber, JsonValue};
use crate::models::Timestamp;
use crate::text::{owned, push_str};
use crate::time::{format_rfc3339, rfc3339_text};
use crate::url::{percent_encode, url_encode};
use vstd::utf8::encode_utf8;

verus! {

/// What goes wrong in the OAuth flow.
#[derive(Debug, Clone, PartialEq, Eq)]
pub enum SplitwiseOAuthError {
    ConfigurationError(String),
    NetworkError(String),
    InvalidResponse(String),
    OAuthError(String),
}

/// A `SplitwiseOAuthError` with its detail as a character sequence.
pub enum SplitwiseOAuthErrorView {
    ConfigurationError(Seq<char>),
    NetworkError(Seq<char>),
    InvalidResponse(Seq<char>),
    OAuthError(Seq<char>),
}

pub open spec fn oauth_error_view(e: SplitwiseOAuthError) -> SplitwiseOAuthErrorView {
    match e {
        SplitwiseOAuthError::ConfigurationError(m) => SplitwiseOAuthErrorView::ConfigurationError(m@),
        SplitwiseOAuthError::NetworkError(m) => SplitwiseOAuthErrorView::NetworkError(m@),
        SplitwiseOAuthError::InvalidResponse(m) => SplitwiseOAuthErrorView::InvalidResponse(m@),
        SplitwiseOAuthError::OAuthError(m) => SplitwiseOAuthErrorView::OAuthError(m@),
    }
}

/// The message of an error, as it is displayed.
pub open spec fn oauth_error_message(e: SplitwiseOAuthErrorView) -> Seq<char> {
    match e {
        SplitwiseOAuthErrorView::ConfigurationError(m) => "OAuth configuration error: "@ + m,
        SplitwiseOAuthErrorView::NetworkError(m) => "Network error: "@ + m,
        SplitwiseOAuthErrorView::InvalidResponse(m) => "Invalid response: "@ + m,
        SplitwiseOAuthErrorView::OAuthError(m) => "OAuth error: "@ + m,
    }
}

impl SplitwiseOAuthError {
    /// The message of the error, as it is displayed.
    pub fn message(&self) -> (res: String)
        ensures
            res@ == oauth_error_message(oauth_error_view(*self)),
    {
        let (mut m, detail) = match self {
            SplitwiseOAuthError::ConfigurationError(d) => (owned("OAuth configuration error: "), d),
            SplitwiseOAuthError::NetworkError(d) => (owned("Network error: "), d),
            SplitwiseOAuthError::InvalidResponse(d) => (owned("Invalid response: "), d),
            SplitwiseOAuthError::OAuthError(d) => (owned("OAuth error: "), d),
        };
        push_str(&mut m, detail.as_str());
        m
    }
}

/// The tokens Splitwise answers a token request with.
#[derive(Debug, Clone)]
pub struct SplitwiseTokens {
    pub access_token: String,
    pub refresh_token: String,
    pub expires_in: i64,
    pub token_type: String,
}

/// The Splitwise user the tokens belong to.
#[derive(Debug, Clone)]
pub struct SplitwiseUser {
    pub id: i64,
    pub first_name: String,
    pub last_name: String,
    pub email: String,
}

/// The application's registration with Splitwise.
#[derive(Debug, Clone)]
pub struct SplitwiseOAuth {
    pub client_id: String,
    pub client_secret: String,
    pub redirect_uri: String,
}

pub open spec fn authorize_url() -> Seq<char> {
    "https://secure.splitwise.com/oauth/authorize"@
}

pub open spec fn token_url() -> Seq<char> {
    "https://secure.splitwise.com/oauth/token"@
}

pub open spec fn user_info_url() -> Seq<char> {
    "https://secure.splitwise.com/api/v3.0/get_current_user"@
}

/// The percent-encoding of a text's UTF-8 bytes.
pub open spec fn encoded(s: Seq<char>) -> Seq<char> {
    percent_encode(encode_utf8(s))
}

/// The authorization link for the registration and a CSRF `state`.
pub open spec fn splitwise_auth_link(o: SplitwiseOAuth, state: Seq<char>) -> Seq<char> {
    authorize_url() + "?client_id="@ + encoded(o.client_id@) + "&response_type=code&redirect_uri="@ + encoded(
        o.redirect_uri@,
    ) + "&state="@ + encoded(state)
}

/// A form field as a pair of character sequences.
pub open spec fn field_view(f: (String, String)) -> (Seq<char>, Seq<char>) {
    (f.0@, f.1@)
}

pub open spec fn fields_view(fs: Seq<(String, String)>) -> Seq<(Seq<char>, Seq<char>)> {
    fs.map_values(|f: (String, String)| field_view(f))
}

fn field(name: &str, value: &str) -> (res: (String, String))
    ensures
        field_view(res) == (name@, value@),
{
    (owned(name), owned(value))
}

impl SplitwiseOAuth {
    /// The URL that starts the authorization.
    pub fn authorize_url() -> (res: &'static str)
        ensures
            res@ == authorize_url(),
    {
        "https://secure.splitwise.com/oauth/authorize"
    }

    /// The URL tokens are requested from.
    pub fn token_url() -> (res: &'static str)
        ensures
            res@ == token_url(),
    {
        "https://secure.splitwise.com/oauth/token"
    }

    /// The URL of the current user's information.
    pub fn user_info_url() -> (res: &'static str)
        ensures
            res@ == user_info_url(),
    {
        "https://secure.splitwise.com/api/v3.0/get_current_user"
    }

    /// The registration from the settings `SPLITWISE_CLIENT_ID`,
    /// `SPLITWISE_CLIENT_SECRET` and `SPLITWISE_REDIRECT_URI`, each of
    /// which is required, in that order.
    pub fn from_settings(client_id: Option<&str>, client_secret: Option<&str>, redirect_uri: Option<&str>) -> (res: Result<
        SplitwiseOAuth,
        SplitwiseOAuthError,
    >)
        ensures
            client_id is None ==> (res matches Err(e) && oauth_error_view(e) == SplitwiseOAuthErrorView::ConfigurationError(
                "SPLITWISE_CLIENT_ID not set"@,
            )),
            client_id is Some && client_secret is None ==> (res matches Err(e) && oauth_error_view(e)
                == SplitwiseOAuthErrorView::ConfigurationError("SPLITWISE_CLIENT_SECRET not set"@)),
            client_id is Some && client_secret is Some && redirect_uri is None ==> (res matches Err(e)
                && oauth_error_view(e) == SplitwiseOAuthErrorView::ConfigurationError(
                "SPLITWISE_REDIRECT_URI not set"@,
            )),
            client_id is Some && client_secret is Some && redirect_uri is Some ==> (res matches Ok(o)
                && o.client_id@ == client_id->0@ && o.client_secret@ == client_secret->0@ && o.redirect_uri@
                == redirect_uri->0@),
    {
        let client_id = match client_id {
            Some(v) => owned(v),
            None => {
                return Err(SplitwiseOAuthError::ConfigurationError(owned("SPLITWISE_CLIENT_ID not set")));
            },
        };
        let client_secret = match client_secret {
            Some(v) => owned(v),
            None => {
                return Err(SplitwiseOAuthError::ConfigurationError(owned("SPLITWISE_CLIENT_SECRET not set")));
            },
        };
        let redirect_uri = match redirect_uri {
            Some(v) => owned(v),
            None => {
                return Err(SplitwiseOAuthError::ConfigurationError(owned("SPLITWISE_REDIRECT_URI not set")));
            },
        };
        Ok(SplitwiseOAuth { client_id, client_secret, redirect_uri })
    }

    /// The link to send the user to, carrying the CSRF `state`.
    pub fn generate_auth_url(&self, state: &str) -> (res: String)
        ensures
            res@ == splitwise_auth_link(*self, state@),
    {
        let mut u = owned(SplitwiseOAuth::authorize_url());
        push_str(&mut u, "?client_id=");
        push_str(&mut u, url_encode(self.client_id.as_str()).as_str());
        push_str(&mut u, "&response_type=code&redirect_uri=");
        push_str(&mut u, url_encode(self.redirect_uri.as_str()).as_str());
        push_str(&mut u, "&state=");
        push_str(&mut u, url_encode(state).as_str());
        u
    }

    /// The form that exchanges an authorization code for tokens.
    pub fn code_exchange_form(&self, code: &str) -> (res: Vec<(String, String)>)
        ensures
            fields_view(res@) == seq![
                ("grant_type"@, "authorization_code"@),
                ("code"@, code@),
                ("client_id"@, self.client_id@),
                ("client_secret"@, self.client_secret@),
                ("redirect_uri"@, self.redirect_uri@),
            ],
    {
        let mut v: Vec<(String, String)> = Vec::new();
        v.push(field("grant_type", "authorization_code"));
        v.push(field("code", code));
        v.push(field("client_id", self.client_id.as_str()));
        v.push(field("client_secret", self.client_secret.as_str()));
        v.push(field("redirect_uri", self.redirect_uri.as_str()));
        assert(fields_view(v@) =~= seq![
            ("grant_type"@, "authorization_code"@),
            ("code"@, code@),
            ("client_id"@, self.client_id@),
            ("client_secret"@, self.client_secret@),
            ("redirect_uri"@, self.redirect_uri@),
        ]);
        v
    }

    /// The form that refreshes an expired access token.
    pub fn refresh_form(&self, refresh_token: &str) -> (res: Vec<(String, String)>)
        ensures
            fields_view(res@) == seq![
                ("grant_type"@, "refresh_token"@),
                ("refresh_token"@, refresh_token@),
                ("client_id"@, self.client_id@),
                ("client_secret"@, self.client_secret@),
            ],
    {
        let mut v: Vec<(String, String)> = Vec::new();
        v.push(field("grant_type", "refresh_token"));
        v.push(field("refresh_token", refresh_token));
        v.push(field("client_id", self.client_id.as_str()));
        v.push(field("client_secret", self.client_secret.as_str()));
        assert(fields_view(v@) =~= seq![
            ("grant_type"@, "refresh_token"@),
            ("refresh_token"@, refresh_token@),
            ("client_id"@, self.client_id@),
            ("client_secret"@, self.client_secret@),
        ]);
        v
    }

    /// Judges the status of an answer: anything but a success is an OAuth
    /// error that reports `failure`, the status and the body.
    pub fn check_status(success: bool, failure: &str, status_text: &str, body: &str) -> (res: Result<(), SplitwiseOAuthError>)
        ensures
            success ==> res is Ok,
            !success ==> (res matches Err(e) && oauth_error_view(e) == SplitwiseOAuthErrorView::OAuthError(
                failure@ + ": HTTP "@ + status_text@ + ": "@ + body@,
            )),
    {
        if success {
            return Ok(());
        }
        let mut m = owned(failure);
        push_str(&mut m, ": HTTP ");
        push_str(&mut m, status_text);
        push_str(&mut m, ": ");
        push_str(&mut m, body);
        Err(SplitwiseOAuthError::OAuthError(m))
    }

    /// The user inside the answer of the user-information request: its
    /// `user` member, which is required.
    pub fn user_member(answer: &JsonValue) -> (res: Result<&JsonValue, SplitwiseOAuthError>)
        ensures
            match json_get(*answer, "user"@) {
                Some(u) => res == Ok::<&JsonValue, SplitwiseOAuthError>(&u),
                None => res matches Err(e) && oauth_error_view(e) == SplitwiseOAuthErrorView::InvalidResponse(
                    "Missing 'user' field"@,
                ),
            },
    {
        match answer.get("user") {
            Some(u) => Ok(u),
            None => Err(SplitwiseOAuthError::InvalidResponse(owned("Missing 'user' field"))),
        }
    }

    /// The credentials to store for `tokens` of the Splitwise user
    /// `user_id`, received at `now`: both tokens, the expiry `expires_in`
    /// seconds after `now` as RFC 3339 text, and the user. `None` where the
    /// expiry lies outside the calendar.
    pub fn build_credentials(tokens: &SplitwiseTokens, user_id: i64, now: Timestamp) -> (res: Option<JsonValue>)
        requires
            -(i64::MAX / 1000) <= tokens.expires_in <= i64::MAX / 1000,
            i64::MIN <= now.seconds + tokens.expires_in <= i64::MAX,
        ensures
            ({
                let expiry = Timestamp { seconds: (now.seconds + tokens.expires_in) as i64, nanos: now.nanos };
                match rfc3339_text(expiry) {
                    None => res is None,
                    Some(t) => res matches Some(c) && {
                        &&& field_str(c, "access_token"@) == Some(tokens.access_token@)
                        &&& field_str(c, "refresh_token"@) == Some(tokens.refresh_token@)
                        &&& field_str(c, "token_expires_at"@) == Some(t)
                        &&& json_get(c, "splitwise_user_id"@) == Some(JsonValue::Number(JsonNumber::Int(user_id)))
                    },
                }
            }),
    {
        let expiry = Timestamp { seconds: now.seconds + tokens.expires_in, nanos: now.nanos };
        let expires_text = match format_rfc3339(expiry) {
            Some(t) => t,
            None => {
                return None;
            },
        };
        let mut m: Vec<JsonMember> = Vec::new();
        m.push(JsonMember { key: owned("access_token"), value: JsonValue::String(tokens.access_token.clone()) });
        m.push(JsonMember { key: owned("refresh_token"), value: JsonValue::String(tokens.refresh_token.clone()) });
        m.push(JsonMember { key: owned("token_expires_at"), value: JsonValue::String(expires_text) });
        m.push(
            JsonMember { key: owned("splitwise_user_id"), value: JsonValue::Number(JsonNumber::Int(user_id)) },
        );
        let res = JsonValue::Object(m);
        proof {
            reveal_strlit("access_token");
            reveal_strlit("refresh_token");
            reveal_strlit("token_expires_at");
            reveal_strlit("splitwise_user_id");
            let mm = m@;
            assert(mm[0].key@ != "refresh_token"@) by {
                assert(mm[0].key@[0] != "refresh_token"@[0]);
            }
            assert(mm[0].key@ != "token_expires_at"@) by {
                assert(mm[0].key@[0] != "token_expires_at"@[0]);
            }
            assert(mm[0].key@ != "splitwise_user_id"@) by {
                assert(mm[0].key@[0] != "splitwise_user_id"@[0]);
            }
            assert(mm[1].key@ != "token_expires_at"@) by {
                assert(mm[1].key@[0] != "token_expires_at"@[0]);
            }
            assert(mm[1].key@ != "splitwise_user_id"@) by {
                assert(mm[1].key@[1] != "splitwise_user_id"@[1]);
            }
            assert(mm[2].key@ != "splitwise_user_id"@) by {
                assert(mm[2].key@[0] != "splitwise_user_id"@[0]);
            }
            assert(entry_lookup(mm, "access_token"@, 0) is None);
            assert(entry_lookup(mm, "refresh_token"@, 0) is None);
            assert(entry_lookup(mm, "token_expires_at"@, 0) is None);
            assert(entry_lookup(mm, "splitwise_user_id"@, 0) is None);
            assert(entry_lookup(mm, "access_token"@, 1) == Some(mm[0].value));
            assert(entry_lookup(mm, "access_token"@, 2) == Some(mm[0].value));
            assert(entry_lookup(mm, "access_token"@, 3) == Some(mm[0].value));
            assert(entry_lookup(mm, "refresh_token"@, 1) is None);
            assert(entry_lookup(mm, "refresh_token"@, 2) == Some(mm[1].value));
            assert(entry_lookup(mm, "refresh_token"@, 3) == Some(mm[1].value));
            assert(entry_lookup(mm, "token_expires_at"@, 1) is None);
            assert(entry_lookup(mm, "token_expires_at"@, 2) is None);
            assert(entry_lookup(mm, "token_expires_at"@, 3) == Some(mm[2].value));
            assert(entry_lookup(mm, "splitwise_user_id"@, 1) is None);
            assert(entry_lookup(mm, "splitwise_user_id"@, 2) is None);
            assert(entry_lookup(mm, "splitwise_user_id"@, 3) is None);
        }
        Some(res)
    }
}

} // verus!
