use vstd::prelude::*;
use crate::text::str_eq;

verus! {
/// Kind of account (database enum `account_type`).
#[derive(Debug, Clone, Copy, PartialEq, Eq, Hash, Structural)]
pub enum AccountType {
    Checking,
    Savings,
    CreditCard,
    Investment,
    Cash,
}
/// The database label of each variant.
pub open spec fn account_type_label(t: AccountType) -> Seq<char> {
    match t {
        AccountType::Checking => "CHECKING"@,
        AccountType::Savings => "SAVINGS"@,
        AccountType::CreditCard => "CREDIT_CARD"@,
        AccountType::Investment => "INVESTMENT"@,
        AccountType::Cash => "CASH"@,
    }
}
/// The variant with the given database label, if any.
pub open spec fn account_type_from_label(s: Seq<char>) -> Option<AccountType> {
    if s == "CHECKING"@ {
        Some(AccountType::Checking)
    } else if s == "SAVINGS"@ {
        Some(AccountType::Savings)
    } else if s == "CREDIT_CARD"@ {
        Some(AccountType::CreditCard)
    } else if s == "INVESTMENT"@ {
        Some(AccountType::Investment)
    } else if s == "CASH"@ {
        Some(AccountType::Cash)
    } else {
        None
    }
}
impl AccountType {
    /// The label this variant is stored under in the database.
    pub fn to_sql_label(&self) -> (res: &'static str)
        ensures
            res@ == account_type_label(*self),
    {
        match self {
            AccountType::Checking => "CHECKING",
            AccountType::Savings => "SAVINGS",
            AccountType::CreditCard => "CREDIT_CARD",
            AccountType::Investment => "INVESTMENT",
            AccountType::Cash => "CASH",
        }
    }

    /// The variant stored under a database label; any other label is refused.
    pub fn from_sql_label(label: &str) -> (res: Result<AccountType, String>)
        ensures
            match account_type_from_label(label@) {
                Some(t) => res == Ok::<AccountType, String>(t),
                None => res matches Err(m) && m@ == "Unrecognized enum variant for AccountType"@,
            },
    {
        if str_eq(label, "CHECKING") {
            Ok(AccountType::Checking)
        } else if str_eq(label, "SAVINGS") {
            Ok(AccountType::Savings)
        } else if str_eq(label, "CREDIT_CARD") {
            Ok(AccountType::CreditCard)
        } else if str_eq(label, "INVESTMENT") {
            Ok(AccountType::Investment)
        } else if str_eq(label, "CASH") {
            Ok(AccountType::Cash)
        } else {
            Err(crate::text::owned("Unrecognized enum variant for AccountType"))
        }
    }
}

/// Reading back the label stored for a variant gives that variant.
pub proof fn lemma_account_type_label_roundtrip(t: AccountType)
    ensures
        account_type_from_label(account_type_label(t)) == Some(t),
{
    reveal_strlit("CHECKING");
    reveal_strlit("SAVINGS");
    reveal_strlit("CREDIT_CARD");
    reveal_strlit("INVESTMENT");
    reveal_strlit("CASH");
    assert("SAVINGS"@.len() != "CHECKING"@.len());
    assert("CREDIT_CARD"@.len() != "CHECKING"@.len());
    assert("CREDIT_CARD"@.len() != "SAVINGS"@.len());
    assert("INVESTMENT"@.len() != "CHECKING"@.len());
    assert("INVESTMENT"@.len() != "SAVINGS"@.len());
    assert("INVESTMENT"@.len() != "CREDIT_CARD"@.len());
    assert("CASH"@.len() != "CHECKING"@.len());
    assert("CASH"@.len() != "SAVINGS"@.len());
    assert("CASH"@.len() != "CREDIT_CARD"@.len());
    assert("CASH"@.len() != "INVESTMENT"@.len());
}

} // verus!
