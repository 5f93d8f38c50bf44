use vstd::prelude::*;
use crate::text::str_eq;

verus! {
/// Expense-splitting provider (database enum `split_provider_type`).
#[derive(Debug, Clone, Copy, PartialEq, Eq, Hash, Structural)]
pub enum SplitProviderType {
    Splitwise,
    SplitPro,
}
/// The database label of each variant.
pub open spec fn split_provider_type_label(t: SplitProviderType) -> Seq<char> {
    match t {
        SplitProviderType::Splitwise => "splitwise"@,
        SplitProviderType::SplitPro => "splitpro"@,
    }
}
/// The variant with the given database label, if any.
pub open spec fn split_provider_type_from_label(s: Seq<char>) -> Option<SplitProviderType> {
    if s == "splitwise"@ {
        Some(SplitProviderType::Splitwise)
    } else if s == "splitpro"@ {
        Some(SplitProviderType::SplitPro)
    } else {
        None
    }
}
impl SplitProviderType {
    /// The label this variant is stored under in the database.
    pub fn to_sql_label(&self) -> (res: &'static str)
        ensures
            res@ == split_provider_type_label(*self),
    {
        match self {
            SplitProviderType::Splitwise => "splitwise",
            SplitProviderType::SplitPro => "splitpro",
        }
    }

    /// The variant stored under a database label; any other label is refused.
    pub fn from_sql_label(label: &str) -> (res: Result<SplitProviderType, String>)
        ensures
            match split_provider_type_from_label(label@) {
                Some(t) => res == Ok::<SplitProviderType, String>(t),
                None => res matches Err(m) && m@ == "Unrecognized enum variant for SplitProviderType"@,
            },
    {
        if str_eq(label, "splitwise") {
            Ok(SplitProviderType::Splitwise)
        } else if str_eq(label, "splitpro") {
            Ok(SplitProviderType::SplitPro)
        } else {
            Err(crate::text::owned("Unrecognized enum variant for SplitProviderType"))
        }
    }

    /// The text `Display` shows for this variant (its database label).
    pub fn display_text(&self) -> (res: String)
        ensures
            res@ == split_provider_type_label(*self),
    {
        crate::text::owned(self.to_sql_label())
    }
}

impl Default for SplitProviderType {
    fn default() -> (res: Self)
        ensures
            res == SplitProviderType::Splitwise,
    {
        SplitProviderType::Splitwise
    }
}

/// Reading back the label stored for a variant gives that variant.
pub proof fn lemma_split_provider_type_label_roundtrip(t: SplitProviderType)
    ensures
        split_provider_type_from_label(split_provider_type_label(t)) == Some(t),
{
    reveal_strlit("splitwise");
    reveal_strlit("splitpro");
    assert("splitpro"@.len() != "splitwise"@.len());
}

} // verus!
