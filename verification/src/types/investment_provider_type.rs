use vstd::prelude::*;
use crate::text::str_eq;

verus! {
/// Brokerage provider (database enum `investment_provider_type`).
#[derive(Debug, Clone, Copy, PartialEq, Eq, Hash, Structural)]
pub enum InvestmentProviderType {
    Trading212,
}
/// The database label of each variant.
pub open spec fn investment_provider_type_label(t: InvestmentProviderType) -> Seq<char> {
    match t {
        InvestmentProviderType::Trading212 => "TRADING_212"@,
    }
}
/// The variant with the given database label, if any.
pub open spec fn investment_provider_type_from_label(s: Seq<char>) -> Option<InvestmentProviderType> {
    if s == "TRADING_212"@ {
        Some(InvestmentProviderType::Trading212)
    } else {
        None
    }
}
impl InvestmentProviderType {
    /// The label this variant is stored under in the database.
    pub fn to_sql_label(&self) -> (res: &'static str)
        ensures
            res@ == investment_provider_type_label(*self),
    {
        match self {
            InvestmentProviderType::Trading212 => "TRADING_212",
        }
    }

    /// The variant stored under a database label; any other label is refused.
    pub fn from_sql_label(label: &str) -> (res: Result<InvestmentProviderType, String>)
        ensures
            match investment_provider_type_from_label(label@) {
                Some(t) => res == Ok::<InvestmentProviderType, String>(t),
                None => res matches Err(m) && m@ == "Unrecognized enum variant for InvestmentProviderType"@,
            },
    {
        if str_eq(label, "TRADING_212") {
            Ok(InvestmentProviderType::Trading212)
        } else {
            Err(crate::text::owned("Unrecognized enum variant for InvestmentProviderType"))
        }
    }

    /// The text `Display` shows for this variant (its database label).
    pub fn display_text(&self) -> (res: String)
        ensures
            res@ == investment_provider_type_label(*self),
    {
        crate::text::owned(self.to_sql_label())
    }
}

/// Reading back the label stored for a variant gives that variant.
pub proof fn lemma_investment_provider_type_label_roundtrip(t: InvestmentProviderType)
    ensures
        investment_provider_type_from_label(investment_provider_type_label(t)) == Some(t),
{
    reveal_strlit("TRADING_212");
}

} // verus!
