//! The version the running build reports, from the build settings
//! `APP_VERSION` and `GIT_SHA`.
use vstd::prelude::*;
use crate::text::{owned, trim, trimmed};

verus! {

/// A setting counts when it is set and not blank (declared but unsupplied
/// build arguments arrive empty).
pub open spec fn present_setting(v: Option<Seq<char>>) -> Option<Seq<char>> {
    match v {
        Some(s) => if trimmed(s).len() > 0 {
            Some(s)
        } else {
            None
        },
        None => None,
    }
}

pub open spec fn setting_view(v: Option<&str>) -> Option<Seq<char>> {
    match v {
        Some(s) => Some(s@),
        None => None,
    }
}

/// The setting when it is set and not blank.
pub fn non_empty_setting(v: Option<&str>) -> (res: Option<String>)
    ensures
        match res {
            Some(s) => present_setting(setting_view(v)) == Some(s@),
            None => present_setting(setting_view(v)) is None,
        },
{
    match v {
        Some(s) => if trim(s).as_str().unicode_len() > 0 {
            Some(owned(s))
        } else {
            None
        },
        None => None,
    }
}

/// The release version the build was made from, or "dev".
pub fn app_version(setting: Option<&str>) -> (res: String)
    ensures
        res@ == match present_setting(setting_view(setting)) {
            Some(s) => s,
            None => "dev"@,
        },
{
    match non_empty_setting(setting) {
        Some(s) => s,
        None => owned("dev"),
    }
}

/// The short commit the build was made from (its first seven characters),
/// or "unknown".
pub fn git_sha(setting: Option<&str>) -> (res: String)
    ensures
        res@ == match present_setting(setting_view(setting)) {
            Some(s) => if s.len() > 7 {
                s.subrange(0, 7)
            } else {
                s
            },
            None => "unknown"@,
        },
{
    match non_empty_setting(setting) {
        Some(s) => {
            let t = s.as_str();
            if t.unicode_len() > 7 {
                owned(t.substring_char(0, 7))
            } else {
                s
            }
        },
        None => owned("unknown"),
    }
}

} // verus!
