use vstd::prelude::*;
use crate::text::str_eq;

verus! {
/// Supported ISO 4217 currency (database enum `currency_code`).
#[derive(Debug, Clone, Copy, PartialEq, Eq, Hash, Structural)]
pub enum CurrencyCode {
    Usd,
    Eur,
    Gbp,
    Inr,
    Jpy,
    Aud,
    Cad,
}
/// The database label of each variant.
pub open spec fn currency_code_label(t: CurrencyCode) -> Seq<char> {
    match t {
        CurrencyCode::Usd => "USD"@,
        CurrencyCode::Eur => "EUR"@,
        CurrencyCode::Gbp => "GBP"@,
        CurrencyCode::Inr => "INR"@,
        CurrencyCode::Jpy => "JPY"@,
        CurrencyCode::Aud => "AUD"@,
        CurrencyCode::Cad => "CAD"@,
    }
}
/// The variant with the given database label, if any.
pub open spec fn currency_code_from_label(s: Seq<char>) -> Option<CurrencyCode> {
    if s == "USD"@ {
        Some(CurrencyCode::Usd)
    } else if s == "EUR"@ {
        Some(CurrencyCode::Eur)
    } else if s == "GBP"@ {
        Some(CurrencyCode::Gbp)
    } else if s == "INR"@ {
        Some(CurrencyCode::Inr)
    } else if s == "JPY"@ {
        Some(CurrencyCode::Jpy)
    } else if s == "AUD"@ {
        Some(CurrencyCode::Aud)
    } else if s == "CAD"@ {
        Some(CurrencyCode::Cad)
    } else {
        None
    }
}
/// The name of a variant, as `{:?}` writes it.
pub open spec fn currency_variant_name(c: CurrencyCode) -> Seq<char> {
    match c {
        CurrencyCode::Usd => "Usd"@,
        CurrencyCode::Eur => "Eur"@,
        CurrencyCode::Gbp => "Gbp"@,
        CurrencyCode::Inr => "Inr"@,
        CurrencyCode::Jpy => "Jpy"@,
        CurrencyCode::Aud => "Aud"@,
        CurrencyCode::Cad => "Cad"@,
    }
}

impl CurrencyCode {
    /// Convert currency code to its ISO 4217 string representation.
    pub fn as_str(&self) -> (res: &'static str)
        ensures
            res@ == currency_code_label(*self),
    {
        self.to_sql_label()
    }

    /// The label this variant is stored under in the database.
    pub fn to_sql_label(&self) -> (res: &'static str)
        ensures
            res@ == currency_code_label(*self),
    {
        match self {
            CurrencyCode::Usd => "USD",
            CurrencyCode::Eur => "EUR",
            CurrencyCode::Gbp => "GBP",
            CurrencyCode::Inr => "INR",
            CurrencyCode::Jpy => "JPY",
            CurrencyCode::Aud => "AUD",
            CurrencyCode::Cad => "CAD",
        }
    }

    /// The currency of an ISO 4217 code, where it is one of these.
    pub fn from_code(code: &str) -> (res: Option<CurrencyCode>)
        ensures
            res == currency_code_from_label(code@),
    {
        match CurrencyCode::from_sql_label(code) {
            Ok(c) => Some(c),
            Err(_) => None,
        }
    }

    /// The name of the variant, as `{:?}` writes it.
    pub fn variant_name(&self) -> (res: &'static str)
        ensures
            res@ == currency_variant_name(*self),
    {
        match self {
            CurrencyCode::Usd => "Usd",
            CurrencyCode::Eur => "Eur",
            CurrencyCode::Gbp => "Gbp",
            CurrencyCode::Inr => "Inr",
            CurrencyCode::Jpy => "Jpy",
            CurrencyCode::Aud => "Aud",
            CurrencyCode::Cad => "Cad",
        }
    }

    /// The variant stored under a database label; any other label is refused.
    pub fn from_sql_label(label: &str) -> (res: Result<CurrencyCode, String>)
        ensures
            match currency_code_from_label(label@) {
                Some(t) => res == Ok::<CurrencyCode, String>(t),
                None => res matches Err(m) && m@ == "Unrecognized enum variant for CurrencyCode"@,
            },
    {
        if str_eq(label, "USD") {
            Ok(CurrencyCode::Usd)
        } else if str_eq(label, "EUR") {
            Ok(CurrencyCode::Eur)
        } else if str_eq(label, "GBP") {
            Ok(CurrencyCode::Gbp)
        } else if str_eq(label, "INR") {
            Ok(CurrencyCode::Inr)
        } else if str_eq(label, "JPY") {
            Ok(CurrencyCode::Jpy)
        } else if str_eq(label, "AUD") {
            Ok(CurrencyCode::Aud)
        } else if str_eq(label, "CAD") {
            Ok(CurrencyCode::Cad)
        } else {
            Err(crate::text::owned("Unrecognized enum variant for CurrencyCode"))
        }
    }
}

/// Reading back the label stored for a variant gives that variant.
pub proof fn lemma_currency_code_label_roundtrip(t: CurrencyCode)
    ensures
        currency_code_from_label(currency_code_label(t)) == Some(t),
{
    reveal_strlit("USD");
    reveal_strlit("EUR");
    reveal_strlit("GBP");
    reveal_strlit("INR");
    reveal_strlit("JPY");
    reveal_strlit("AUD");
    reveal_strlit("CAD");
    assert("EUR"@[0] != "USD"@[0]);
    assert("GBP"@[0] != "USD"@[0]);
    assert("GBP"@[0] != "EUR"@[0]);
    assert("INR"@[0] != "USD"@[0]);
    assert("INR"@[0] != "EUR"@[0]);
    assert("INR"@[0] != "GBP"@[0]);
    assert("JPY"@[0] != "USD"@[0]);
    assert("JPY"@[0] != "EUR"@[0]);
    assert("JPY"@[0] != "GBP"@[0]);
    assert("JPY"@[0] != "INR"@[0]);
    assert("AUD"@[0] != "USD"@[0]);
    assert("AUD"@[0] != "EUR"@[0]);
    assert("AUD"@[0] != "GBP"@[0]);
    assert("AUD"@[0] != "INR"@[0]);
    assert("AUD"@[0] != "JPY"@[0]);
    assert("CAD"@[0] != "USD"@[0]);
    assert("CAD"@[0] != "EUR"@[0]);
    assert("CAD"@[0] != "GBP"@[0]);
    assert("CAD"@[0] != "INR"@[0]);
    assert("CAD"@[0] != "JPY"@[0]);
    assert("CAD"@[0] != "AUD"@[0]);
}

} // verus!
