use vstd::prelude::*;
use crate::text::{ascii_upper_char, owned, push_str, str_eq, to_uppercase, unicode_uppercase};

verus! {

/// Confidence level for duplicate matching.
#[derive(Debug, Clone, Copy, PartialEq, Eq, Structural)]
pub enum ConfidenceLevel {
    /// Exact match: date + time + amount all match
    High,
    /// High match: date + amount match, time differs
    Medium,
    /// No significant match
    Low,
}

/// The level named by `s` (compared after Unicode upper-casing), if any.
pub open spec fn confidence_from_text(s: Seq<char>) -> Option<ConfidenceLevel> {
    let u = unicode_uppercase(s);
    if u == "HIGH"@ {
        Some(ConfidenceLevel::High)
    } else if u == "MEDIUM"@ {
        Some(ConfidenceLevel::Medium)
    } else if u == "LOW"@ {
        Some(ConfidenceLevel::Low)
    } else {
        None
    }
}

/// Whether a level is strong enough to flag a duplicate.
pub open spec fn flags_duplicate(c: ConfidenceLevel) -> bool {
    c == ConfidenceLevel::High || c == ConfidenceLevel::Medium
}

/// The rank of a level: Low < Medium < High.
pub open spec fn confidence_rank(c: ConfidenceLevel) -> int {
    match c {
        ConfidenceLevel::Low => 0,
        ConfidenceLevel::Medium => 1,
        ConfidenceLevel::High => 2,
    }
}

impl ConfidenceLevel {
    /// Parse from string (case-insensitive).
    pub fn from_str(s: &str) -> (res: Result<ConfidenceLevel, String>)
        ensures
            vstd::utf8::is_ascii_chars(s@) ==> unicode_uppercase(s@) == s@.map_values(|c: char| ascii_upper_char(c)),
            match confidence_from_text(s@) {
                Some(c) => res == Ok::<ConfidenceLevel, String>(c),
                None => res matches Err(m) && m@ == "Invalid confidence level: "@ + s@
                    + ". Must be HIGH, MEDIUM, or LOW"@,
            },
    {
        let u = to_uppercase(s);
        if str_eq(u.as_str(), "HIGH") {
            Ok(ConfidenceLevel::High)
        } else if str_eq(u.as_str(), "MEDIUM") {
            Ok(ConfidenceLevel::Medium)
        } else if str_eq(u.as_str(), "LOW") {
            Ok(ConfidenceLevel::Low)
        } else {
            let mut m = owned("Invalid confidence level: ");
            push_str(&mut m, s);
            push_str(&mut m, ". Must be HIGH, MEDIUM, or LOW");
            Err(m)
        }
    }

    /// The minimum confidence level to flag as duplicate.
    pub fn min_duplicate_threshold() -> (res: ConfidenceLevel)
        ensures
            res == ConfidenceLevel::Medium,
            flags_duplicate(res),
            forall|c: ConfidenceLevel| flags_duplicate(c) <==> confidence_rank(c) >= confidence_rank(res),
    {
        ConfidenceLevel::Medium
    }

    /// Whether this confidence level should be flagged as duplicate.
    pub fn is_duplicate(&self) -> (res: bool)
        ensures
            res == flags_duplicate(*self),
    {
        match self {
            ConfidenceLevel::High | ConfidenceLevel::Medium => true,
            ConfidenceLevel::Low => false,
        }
    }
}

} // verus!
