use vstd::prelude::*;
use crate::text::str_eq;

verus! {
/// Open Banking provider (database enum `bank_provider_type`).
#[derive(Debug, Clone, Copy, PartialEq, Eq, Hash, Structural)]
pub enum BankProviderType {
    TrueLayer,
}
/// The database label of each variant.
pub open spec fn bank_provider_type_label(t: BankProviderType) -> Seq<char> {
    match t {
        BankProviderType::TrueLayer => "TRUELAYER"@,
    }
}
/// The variant with the given database label, if any.
pub open spec fn bank_provider_type_from_label(s: Seq<char>) -> Option<BankProviderType> {
    if s == "TRUELAYER"@ {
        Some(BankProviderType::TrueLayer)
    } else {
        None
    }
}
impl BankProviderType {
    /// The label this variant is stored under in the database.
    pub fn to_sql_label(&self) -> (res: &'static str)
        ensures
            res@ == bank_provider_type_label(*self),
    {
        match self {
            BankProviderType::TrueLayer => "TRUELAYER",
        }
    }

    /// The variant stored under a database label; any other label is refused.
    pub fn from_sql_label(label: &str) -> (res: Result<BankProviderType, String>)
        ensures
            match bank_provider_type_from_label(label@) {
                Some(t) => res == Ok::<BankProviderType, String>(t),
                None => res matches Err(m) && m@ == "Unrecognized enum variant for BankProviderType"@,
            },
    {
        if str_eq(label, "TRUELAYER") {
            Ok(BankProviderType::TrueLayer)
        } else {
            Err(crate::text::owned("Unrecognized enum variant for BankProviderType"))
        }
    }

    /// The text `Display` shows for this variant (its database label).
    pub fn display_text(&self) -> (res: String)
        ensures
            res@ == bank_provider_type_label(*self),
    {
        crate::text::owned(self.to_sql_label())
    }
}

/// Reading back the label stored for a variant gives that variant.
pub proof fn lemma_bank_provider_type_label_roundtrip(t: BankProviderType)
    ensures
        bank_provider_type_from_label(bank_provider_type_label(t)) == Some(t),
{
    reveal_strlit("TRUELAYER");
}

} // verus!
