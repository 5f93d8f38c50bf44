use vstd::prelude::*;
use crate::text::str_eq;

verus! {
/// State of an API key (database enum `api_key_status`).
#[derive(Debug, Clone, Copy, PartialEq, Eq, Hash, Structural)]
pub enum ApiKeyStatus {
    Active,
    Revoked,
    Expired,
}
/// The database label of each variant.
pub open spec fn api_key_status_label(t: ApiKeyStatus) -> Seq<char> {
    match t {
        ApiKeyStatus::Active => "active"@,
        ApiKeyStatus::Revoked => "revoked"@,
        ApiKeyStatus::Expired => "expired"@,
    }
}
/// The variant with the given database label, if any.
pub open spec fn api_key_status_from_label(s: Seq<char>) -> Option<ApiKeyStatus> {
    if s == "active"@ {
        Some(ApiKeyStatus::Active)
    } else if s == "revoked"@ {
        Some(ApiKeyStatus::Revoked)
    } else if s == "expired"@ {
        Some(ApiKeyStatus::Expired)
    } else {
        None
    }
}
impl ApiKeyStatus {
    /// The label this variant is stored under in the database.
    pub fn to_sql_label(&self) -> (res: &'static str)
        ensures
            res@ == api_key_status_label(*self),
    {
        match self {
            ApiKeyStatus::Active => "active",
            ApiKeyStatus::Revoked => "revoked",
            ApiKeyStatus::Expired => "expired",
        }
    }

    /// The variant stored under a database label; any other label is refused.
    pub fn from_sql_label(label: &str) -> (res: Result<ApiKeyStatus, String>)
        ensures
            match api_key_status_from_label(label@) {
                Some(t) => res == Ok::<ApiKeyStatus, String>(t),
                None => res matches Err(m) && m@ == "Unrecognized enum variant for ApiKeyStatus"@,
            },
    {
        if str_eq(label, "active") {
            Ok(ApiKeyStatus::Active)
        } else if str_eq(label, "revoked") {
            Ok(ApiKeyStatus::Revoked)
        } else if str_eq(label, "expired") {
            Ok(ApiKeyStatus::Expired)
        } else {
            Err(crate::text::owned("Unrecognized enum variant for ApiKeyStatus"))
        }
    }
}

impl Default for ApiKeyStatus {
    fn default() -> (res: Self)
        ensures
            res == ApiKeyStatus::Active,
    {
        ApiKeyStatus::Active
    }
}

/// Reading back the label stored for a variant gives that variant.
pub proof fn lemma_api_key_status_label_roundtrip(t: ApiKeyStatus)
    ensures
        api_key_status_from_label(api_key_status_label(t)) == Some(t),
{
    reveal_strlit("active");
    reveal_strlit("revoked");
    reveal_strlit("expired");
    assert("revoked"@.len() != "active"@.len());
    assert("expired"@.len() != "active"@.len());
    assert("expired"@[0] != "revoked"@[0]);
}

} // verus!
