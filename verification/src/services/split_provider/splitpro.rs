//! SplitPro: credentials, tRPC addressing, error mapping and the
//! translation between SplitPro's signed BigInt shares and
//! paid/owed shares.
//!
//! SplitPro records a participant's share as one signed amount in minor
//! units: positive when the participant gets money back (the payer),
//! negative when they owe. For a 120.00 expense paid by A and split
//! equally: A has +6000, B has -6000.
use vstd::prelude::*;
use crate::json::{
    field_i64, field_str, field_str_or, i64_field, json_array, json_get, json_i64, json_str,
    str_field, str_field_or, JsonMember, JsonNumber, JsonValue,
};
use crate::services::split_provider::superjson::{
    amount_to_bigint, amount_to_bigint_fits, amount_to_bigint_spec, array_path, bigint_to_amount,
    bigint_to_amount_spec,
};
use crate::services::split_provider::types::{
    split_error_view, SplitErrorView, CreateExternalExpense, ExpenseUser, ExternalExpenseDetail, ExternalExpenseResult,
    ExternalExpenseUser, SplitProviderError, UpdateExternalExpense,
};
use crate::services::split_provider::superjson::{decode_response, decoded_data, encode_mutation_body_with_dates};
use crate::selection::{first_where, indices_where, lemma_first_where};
use crate::time::{format_utc, formatted_utc};
use crate::text::lex_lt;
use crate::text::{
    i64_text, int_text, nat_digits, owned, parse_i64, parse_i64_spec, push_char, push_str,
    push_u64_digits, str_eq, strip_trailing, trim_end_matches_char, IntErrorKind,
};

verus! {

/// The SplitPro provider. Its HTTP calls are made by the application; the
/// library holds what they are built from and how their answers are read.
pub struct SplitProProvider;

/// `credentials["base_url"]` without trailing slashes.
pub open spec fn base_url_of(credentials: JsonValue) -> Option<Seq<char>> {
    match field_str(credentials, "base_url"@) {
        Some(s) => Some(strip_trailing(s, '/')),
        None => None,
    }
}

/// `ConfigurationError(message)`.
pub open spec fn is_config_error(e: SplitProviderError, message: Seq<char>) -> bool {
    split_error_view(e) == SplitErrorView::ConfigurationError(message)
}

/// A BigInt that SuperJSON sends as a number or as a string of digits.
pub open spec fn bigint_value(v: JsonValue) -> Option<i64> {
    match json_i64(v) {
        Some(i) => Some(i),
        None => match json_str(v) {
            Some(s) => match parse_i64_spec(s) {
                Ok(i) => Some(i as i64),
                Err(_) => None,
            },
            None => None,
        },
    }
}

/// The BigInt of member `key`, or 0.
pub open spec fn bigint_field(v: JsonValue, key: Seq<char>) -> i64 {
    match json_get(v, key) {
        Some(x) => match bigint_value(x) {
            Some(i) => i,
            None => 0,
        },
        None => 0,
    }
}

/// `|x|`, wrapping at `i64::MIN` as a release build does.
pub open spec fn wrapping_abs_i64(x: i64) -> i64 {
    if x < 0 && x != i64::MIN {
        (-x) as i64
    } else {
        x
    }
}

/// Whether the participant entry `p` is read (it has a numeric `userId`).
pub open spec fn is_participant(p: JsonValue) -> bool {
    field_i64(p, "userId"@) is Some
}

/// What a participant entry is read as, for an expense of `total` minor
/// units paid by `paid_by`: the payer paid the total and owes
/// `total - amount`; anyone else paid nothing and owes `|amount|`.
pub open spec fn participant_read(u: ExternalExpenseUser, p: JsonValue, total: i64, paid_by: i64) -> bool {
    let uid = field_i64(p, "userId"@).unwrap();
    let amount = bigint_field(p, "amount"@);
    &&& u.external_user_id@ == int_text(uid as int)
    &&& u.first_name@ == match json_get(p, "user"@) {
        Some(user) => field_str_or(user, "name"@, ""@),
        None => ""@,
    }
    &&& u.last_name@ == ""@
    &&& if uid == paid_by {
        &&& u.paid_share@ == bigint_to_amount_spec(total as int)
        &&& u.owed_share@ == bigint_to_amount_spec(total.wrapping_sub(amount) as int)
    } else {
        &&& u.paid_share@ == "0.00"@
        &&& u.owed_share@ == bigint_to_amount_spec(wrapping_abs_i64(amount) as int)
    }
}

/// Whether `e` is marked deleted (`deletedAt` and `deletedBy` both present
/// and not null).
pub open spec fn marked_deleted(e: JsonValue) -> bool {
    &&& json_get(e, "deletedAt"@) matches Some(a) && !(a is Null)
    &&& json_get(e, "deletedBy"@) matches Some(b) && !(b is Null)
}

/// The participant entries of an expense.
pub open spec fn participant_entries(e: JsonValue) -> Seq<JsonValue> {
    match json_get(e, "expenseParticipants"@) {
        Some(v) => match json_array(v) {
            Some(a) => a,
            None => Seq::empty(),
        },
        None => Seq::empty(),
    }
}

/// `d` is the expense `e` read from SplitPro's answer.
pub open spec fn expense_read(d: ExternalExpenseDetail, e: JsonValue) -> bool {
    let total = bigint_field(e, "amount"@);
    let paid_by = match field_i64(e, "paidBy"@) {
        Some(p) => p,
        None => 0,
    };
    let entries = participant_entries(e);
    let kept = crate::selection::indices_where(entries.len() as int, |k: int| is_participant(entries[k]));
    &&& d.external_expense_id@ == field_str_or(e, "id"@, ""@)
    &&& d.description@ == field_str_or(e, "name"@, ""@)
    &&& d.cost@ == bigint_to_amount_spec(total as int)
    &&& d.currency_code@ == field_str_or(e, "currency"@, "USD"@)
    &&& d.date@ == field_str_or(e, "expenseDate"@, ""@)
    &&& d.provider_type@ == ""@
    &&& d.users@.len() == kept.len()
    &&& forall|k: int| 0 <= k < kept.len() ==> participant_read(#[trigger] d.users@[k], entries[kept[k]], total, paid_by)
}

/// Whether every user's shares convert to BigInts, and their difference
/// too, without an `i64` overflow (a debug build panics otherwise).
pub open spec fn participants_fit(users: Seq<ExpenseUser>) -> bool {
    forall|i: int| 0 <= i < users.len() ==> {
        let u = #[trigger] users[i];
        &&& amount_to_bigint_fits(u.paid_share@)
        &&& amount_to_bigint_fits(u.owed_share@)
        &&& match (amount_to_bigint_spec(u.paid_share@), amount_to_bigint_spec(u.owed_share@)) {
            (Ok(p), Ok(o)) => i64::MIN <= p - o <= i64::MAX,
            _ => true,
        }
    }
}

/// The error message for user `u`, the first user that fails.
pub open spec fn participant_error_message(u: ExpenseUser) -> Seq<char> {
    match parse_i64_spec(u.external_user_id@) {
        Err(_) => "Invalid SplitPro user ID: "@ + u.external_user_id@,
        Ok(_) => match amount_to_bigint_spec(u.paid_share@) {
            Err(m) => "Failed to convert paid_share: "@ + m,
            Ok(_) => match amount_to_bigint_spec(u.owed_share@) {
                Err(m) => "Failed to convert owed_share: "@ + m,
                Ok(_) => Seq::empty(),
            },
        },
    }
}

/// Whether user `u` converts.
pub open spec fn participant_converts(u: ExpenseUser) -> bool {
    &&& parse_i64_spec(u.external_user_id@) is Ok
    &&& amount_to_bigint_spec(u.paid_share@) is Ok
    &&& amount_to_bigint_spec(u.owed_share@) is Ok
}

/// `{"userId": uid, "amount": "<amount>"}`.
pub open spec fn is_participant_json(v: JsonValue, uid: int, amount: int) -> bool {
    &&& json_get(v, "userId"@) == Some(JsonValue::Number(JsonNumber::Int(uid as i64)))
    &&& field_str(v, "amount"@) == Some(int_text(amount))
    &&& v matches JsonValue::Object(m) && m@.len() == 2
}

impl SplitProProvider {
    /// `credentials["base_url"]`, without trailing slashes.
    pub fn get_base_url(credentials: &JsonValue) -> (res: Result<String, SplitProviderError>)
        ensures
            match res {
                Ok(s) => base_url_of(*credentials) == Some(s@),
                Err(e) => base_url_of(*credentials) is None && is_config_error(e, "Missing base_url in credentials"@),
            },
    {
        match str_field(credentials, "base_url") {
            Some(s) => Ok(trim_end_matches_char(s, '/')),
            None => Err(SplitProviderError::ConfigurationError(owned("Missing base_url in credentials"))),
        }
    }

    /// `credentials["session_token"]`.
    pub fn get_session_token(credentials: &JsonValue) -> (res: Result<String, SplitProviderError>)
        ensures
            match res {
                Ok(s) => field_str(*credentials, "session_token"@) == Some(s@),
                Err(e) => field_str(*credentials, "session_token"@) is None && is_config_error(
                    e,
                    "Missing session_token in credentials"@,
                ),
            },
    {
        match str_field(credentials, "session_token") {
            Some(s) => Ok(owned(s)),
            None => Err(SplitProviderError::ConfigurationError(owned("Missing session_token in credentials"))),
        }
    }

    /// `credentials["splitpro_user_id"]` as an integer.
    pub fn get_splitpro_user_id(credentials: &JsonValue) -> (res: Result<i64, SplitProviderError>)
        ensures
            match res {
                Ok(id) => field_i64(*credentials, "splitpro_user_id"@) == Some(id),
                Err(e) => field_i64(*credentials, "splitpro_user_id"@) is None && is_config_error(
                    e,
                    "Missing splitpro_user_id in credentials"@,
                ),
            },
    {
        match i64_field(credentials, "splitpro_user_id") {
            Some(id) => Ok(id),
            None => Err(SplitProviderError::ConfigurationError(owned("Missing splitpro_user_id in credentials"))),
        }
    }

    /// `<base_url>/api/trpc/<procedure>`.
    pub fn build_trpc_url(base_url: &str, procedure: &str) -> (res: String)
        ensures
            res@ == base_url@ + "/api/trpc/"@ + procedure@,
    {
        let mut s = owned(base_url);
        push_str(&mut s, "/api/trpc/");
        push_str(&mut s, procedure);
        s
    }

    /// The error for a failed HTTP call: 401 → authentication failed,
    /// 404 → not found, 429 → rate limited, otherwise
    /// "HTTP <status>: <body>" (`status_text` is the status as displayed,
    /// code and reason).
    pub fn map_http_error(status: u16, status_text: &str, body: &str) -> (res: SplitProviderError)
        ensures
            split_error_view(res) == if status == 401 {
                SplitErrorView::AuthenticationFailed(body@)
            } else if status == 404 {
                SplitErrorView::NotFound(body@)
            } else if status == 429 {
                SplitErrorView::RateLimited(None)
            } else {
                SplitErrorView::ApiError("HTTP "@ + status_text@ + ": "@ + body@)
            },
    {
        if status == 401 {
            SplitProviderError::AuthenticationFailed(owned(body))
        } else if status == 404 {
            SplitProviderError::NotFound(owned(body))
        } else if status == 429 {
            SplitProviderError::RateLimited(None)
        } else {
            let mut m = owned("HTTP ");
            push_str(&mut m, status_text);
            push_str(&mut m, ": ");
            push_str(&mut m, body);
            SplitProviderError::ApiError(m)
        }
    }

    /// The error for a tRPC error code: UNAUTHORIZED and FORBIDDEN →
    /// authentication failed, NOT_FOUND → not found, TOO_MANY_REQUESTS →
    /// rate limited, otherwise "tRPC <code>: <message>".
    pub fn map_trpc_error(code: &str, message: &str) -> (res: SplitProviderError)
        ensures
            split_error_view(res) == if code@ == "UNAUTHORIZED"@ || code@ == "FORBIDDEN"@ {
                SplitErrorView::AuthenticationFailed(message@)
            } else if code@ == "NOT_FOUND"@ {
                SplitErrorView::NotFound(message@)
            } else if code@ == "TOO_MANY_REQUESTS"@ {
                SplitErrorView::RateLimited(None)
            } else {
                SplitErrorView::ApiError("tRPC "@ + code@ + ": "@ + message@)
            },
    {
        if str_eq(code, "UNAUTHORIZED") || str_eq(code, "FORBIDDEN") {
            SplitProviderError::AuthenticationFailed(owned(message))
        } else if str_eq(code, "NOT_FOUND") {
            SplitProviderError::NotFound(owned(message))
        } else if str_eq(code, "TOO_MANY_REQUESTS") {
            SplitProviderError::RateLimited(None)
        } else {
            let mut m = owned("tRPC ");
            push_str(&mut m, code);
            push_str(&mut m, ": ");
            push_str(&mut m, message);
            SplitProviderError::ApiError(m)
        }
    }
}

/// The error for the first user that fails to convert.
pub open spec fn participant_error(u: ExpenseUser) -> SplitErrorView {
    match parse_i64_spec(u.external_user_id@) {
        Err(_) => SplitErrorView::ConfigurationError("Invalid SplitPro user ID: "@ + u.external_user_id@),
        Ok(_) => match amount_to_bigint_spec(u.paid_share@) {
            Err(m) => SplitErrorView::ApiError("Failed to convert paid_share: "@ + m),
            Ok(_) => match amount_to_bigint_spec(u.owed_share@) {
                Err(m) => SplitErrorView::ApiError("Failed to convert owed_share: "@ + m),
                Ok(_) => SplitErrorView::ApiError(Seq::empty()),
            },
        },
    }
}

/// The user ID of a converting user.
pub open spec fn parsed_id(u: ExpenseUser) -> int {
    match parse_i64_spec(u.external_user_id@) {
        Ok(v) => v,
        Err(_) => 0,
    }
}

/// The signed SplitPro amount of a converting user: `paid - owed` in minor
/// units.
pub open spec fn participant_amount(u: ExpenseUser) -> int {
    match (amount_to_bigint_spec(u.paid_share@), amount_to_bigint_spec(u.owed_share@)) {
        (Ok(p), Ok(o)) => p - o,
        _ => 0,
    }
}

/// `{"userId": uid, "amount": "<amount>"}`.
fn participant_json(uid: i64, amount: i64) -> (res: JsonValue)
    ensures
        is_participant_json(res, uid as int, amount as int),
{
    let mut m: Vec<JsonMember> = Vec::new();
    m.push(JsonMember { key: owned("userId"), value: JsonValue::Number(JsonNumber::Int(uid)) });
    m.push(JsonMember { key: owned("amount"), value: JsonValue::String(i64_text(amount)) });
    let res = JsonValue::Object(m);
    proof {
        reveal_strlit("userId");
        reveal_strlit("amount");
        let mm = m@;
        assert(crate::json::entry_lookup(mm, "userId"@, 0) is None);
        assert(crate::json::entry_lookup(mm, "amount"@, 0) is None);
        assert(crate::json::entry_lookup(mm, "userId"@, 1) == Some(mm[0].value));
        assert(crate::json::entry_lookup(mm, "amount"@, 1) is None) by {
            assert(mm[0].key@ == "userId"@);
            assert(mm[0].key@[0] != "amount"@[0]);
        }
    }
    res
}

impl SplitProProvider {
    /// Builds SplitPro's participants from expense users: for each user
    /// `{"userId": <id>, "amount": "<paid - owed in minor units>"}`, and the
    /// BigInt metadata path `participants.<i>.amount`. Fails at the first
    /// user whose ID is no integer or whose shares do not convert.
    pub fn build_participants(users: &[ExpenseUser]) -> (res: Result<(Vec<JsonValue>, Vec<String>), SplitProviderError>)
        requires
            participants_fit(users@),
        ensures
            match res {
                Ok(out) => {
                    &&& forall|i: int| 0 <= i < users@.len() ==> participant_converts(#[trigger] users@[i])
                    &&& out.0@.len() == users@.len()
                    &&& out.1@.len() == users@.len()
                    &&& forall|i: int|
                        0 <= i < users@.len() ==> is_participant_json(
                            #[trigger] out.0@[i],
                            parsed_id(users@[i]),
                            participant_amount(users@[i]),
                        )
                    &&& forall|i: int|
                        0 <= i < users@.len() ==> (#[trigger] out.1@[i])@ == array_path(
                            "participants"@,
                            "amount"@,
                            i as nat,
                        )
                },
                Err(e) => exists|i: int|
                    0 <= i < users@.len() && !participant_converts(#[trigger] users@[i]) && (forall|j: int|
                        0 <= j < i ==> participant_converts(#[trigger] users@[j])) && split_error_view(e)
                        == participant_error(users@[i]),
            },
    {
        let mut participants: Vec<JsonValue> = Vec::new();
        let mut paths: Vec<String> = Vec::new();
        let mut i: usize = 0;
        while i < users.len()
            invariant
                i <= users@.len(),
                participants_fit(users@),
                participants@.len() == i,
                paths@.len() == i,
                forall|j: int| 0 <= j < i ==> participant_converts(#[trigger] users@[j]),
                forall|j: int|
                    0 <= j < i ==> is_participant_json(
                        #[trigger] participants@[j],
                        parsed_id(users@[j]),
                        participant_amount(users@[j]),
                    ),
                forall|j: int| 0 <= j < i ==> (#[trigger] paths@[j])@ == array_path("participants"@, "amount"@, j as nat),
            decreases users@.len() - i,
        {
            let user = &users[i];
            assert(users@[i as int] == *user);
            let user_id = match parse_i64(user.external_user_id.as_str()) {
                Ok(v) => v,
                Err(_) => {
                    let mut m = owned("Invalid SplitPro user ID: ");
                    push_str(&mut m, user.external_user_id.as_str());
                    return Err(SplitProviderError::ConfigurationError(m));
                },
            };
            let paid = match amount_to_bigint(user.paid_share.as_str()) {
                Ok(v) => v,
                Err(e) => {
                    let mut m = owned("Failed to convert paid_share: ");
                    push_str(&mut m, e.as_str());
                    return Err(SplitProviderError::ApiError(m));
                },
            };
            let owed = match amount_to_bigint(user.owed_share.as_str()) {
                Ok(v) => v,
                Err(e) => {
                    let mut m = owned("Failed to convert owed_share: ");
                    push_str(&mut m, e.as_str());
                    return Err(SplitProviderError::ApiError(m));
                },
            };
            let amount = paid - owed;
            participants.push(participant_json(user_id, amount));
            let mut path = owned("participants.");
            push_u64_digits(&mut path, i as u64);
            push_str(&mut path, ".amount");
            proof {
                reveal_strlit("participants.");
                reveal_strlit("participants");
                reveal_strlit(".amount");
                reveal_strlit("amount");
                assert(path@ =~= array_path("participants"@, "amount"@, i as nat));
            }
            paths.push(path);
            i = i + 1;
        }
        Ok((participants, paths))
    }
}

/// The BigInt of member `key` (`bigint_field`).
fn bigint_of(v: &JsonValue, key: &str) -> (res: i64)
    ensures
        res == bigint_field(*v, key@),
{
    match v.get(key) {
        Some(x) => match x.as_i64() {
            Some(i) => i,
            None => match x.as_str() {
                Some(s) => match parse_i64(s) {
                    Ok(i) => i,
                    Err(_) => 0,
                },
                None => 0,
            },
        },
        None => 0,
    }
}

fn wrapping_abs(x: i64) -> (res: i64)
    ensures
        res == wrapping_abs_i64(x),
{
    if x < 0 && x != i64::MIN {
        -x
    } else {
        x
    }
}

/// Reads one participant entry (`participant_read`).
fn read_participant(p: &JsonValue, uid: i64, total: i64, paid_by: i64) -> (res: ExternalExpenseUser)
    requires
        field_i64(*p, "userId"@) == Some(uid),
    ensures
        participant_read(res, *p, total, paid_by),
{
    let amount = bigint_of(p, "amount");
    let first_name = match p.get("user") {
        Some(user) => str_field_or(user, "name", ""),
        None => owned(""),
    };
    let (paid_share, owed_share) = if uid == paid_by {
        (bigint_to_amount(total), bigint_to_amount(total.wrapping_sub(amount)))
    } else {
        (owned("0.00"), bigint_to_amount(wrapping_abs(amount)))
    };
    ExternalExpenseUser {
        external_user_id: i64_text(uid),
        first_name,
        last_name: owned(""),
        paid_share,
        owed_share,
    }
}

/// Whether `v` is present and not null.
fn present(v: Option<&JsonValue>) -> (res: bool)
    ensures
        res == (v matches Some(x) && !(*x is Null)),
{
    match v {
        Some(x) => !x.is_null(),
        None => false,
    }
}

impl SplitProProvider {
    /// Reads an expense from SplitPro's answer. `None` when it has no ID or
    /// is marked deleted. The cost and shares come from the signed BigInt
    /// amounts: the payer (`paidBy`) paid the total and owes
    /// `total - amount`; everyone else paid "0.00" and owes `|amount|`.
    /// Participant entries without a numeric `userId` are skipped.
    pub fn parse_expense(expense: &JsonValue) -> (res: Option<ExternalExpenseDetail>)
        ensures
            res is None <==> (field_str_or(*expense, "id"@, ""@).len() == 0 || marked_deleted(*expense)),
            match res {
                Some(d) => expense_read(d, *expense),
                None => true,
            },
    {
        let id = str_field_or(expense, "id", "");
        if id.unicode_len() == 0 {
            return None;
        }
        if present(expense.get("deletedAt")) && present(expense.get("deletedBy")) {
            return None;
        }
        let name = str_field_or(expense, "name", "");
        let total = bigint_of(expense, "amount");
        let cost = bigint_to_amount(total);
        let currency = str_field_or(expense, "currency", "USD");
        let date = str_field_or(expense, "expenseDate", "");
        let paid_by = match i64_field(expense, "paidBy") {
            Some(p) => p,
            None => 0,
        };
        let ghost entries = participant_entries(*expense);
        let ghost keep = |k: int| is_participant(entries[k]);
        let mut users: Vec<ExternalExpenseUser> = Vec::new();
        let list = match expense.get("expenseParticipants") {
            Some(v) => v.as_array(),
            None => None,
        };
        match list {
            Some(arr) => {
                assert(arr@ == entries);
                let mut k: usize = 0;
                while k < arr.len()
                    invariant
                        k <= arr@.len(),
                        arr@ == entries,
                        keep == (|k: int| is_participant(entries[k])),
                        users@.len() == crate::selection::indices_where(k as int, keep).len(),
                        forall|j: int|
                            0 <= j < crate::selection::indices_where(k as int, keep).len() ==> participant_read(
                                #[trigger] users@[j],
                                entries[crate::selection::indices_where(k as int, keep)[j]],
                                total,
                                paid_by,
                            ),
                    decreases arr@.len() - k,
                {
                    let p = &arr[k];
                    match i64_field(p, "userId") {
                        Some(uid) => {
                            assert(keep(k as int));
                            users.push(read_participant(p, uid, total, paid_by));
                        },
                        None => {
                            assert(!keep(k as int));
                        },
                    }
                    k = k + 1;
                }
            },
            None => {
                assert(entries.len() == 0);
            },
        }
        Some(ExternalExpenseDetail {
            external_expense_id: id,
            description: name,
            cost,
            currency_code: currency,
            date,
            users,
            provider_type: owned(""),
        })
    }
}

/// `v` is the string `s`.
pub open spec fn string_value(v: JsonValue, s: Seq<char>) -> bool {
    match v {
        JsonValue::String(t) => t@ == s,
        _ => false,
    }
}

/// The payer of an expense: the first user who paid something
/// (`paid_something`, decided from the share's number), by their SplitPro
/// ID where it reads as one, else `default`; `default` when nobody paid.
pub open spec fn payer_of(users: Seq<ExpenseUser>, paid_something: Seq<bool>, default: i64) -> i64 {
    match first_where(users.len() as int, |k: int| paid_something[k]) {
        Some(k) => match parse_i64_spec(users[k].external_user_id@) {
            Ok(v) => v as i64,
            Err(_) => default,
        },
        None => default,
    }
}

/// The members of SplitPro's expense data, after `expenseId` where there is one.
pub open spec fn expense_data_is(
    m: Seq<JsonMember>,
    paid_by: i64,
    name: Seq<char>,
    amount: i64,
    currency: Seq<char>,
    participants: Seq<JsonValue>,
    date: Seq<char>,
) -> bool {
    &&& m.len() == 9
    &&& m[0].key@ == "paidBy"@ && m[0].value == JsonValue::Number(JsonNumber::Int(paid_by))
    &&& m[1].key@ == "name"@ && string_value(m[1].value, name)
    &&& m[2].key@ == "category"@ && string_value(m[2].value, "general"@)
    &&& m[3].key@ == "amount"@ && string_value(m[3].value, int_text(amount as int))
    &&& m[4].key@ == "groupId"@ && m[4].value == JsonValue::Null
    &&& m[5].key@ == "splitType"@ && string_value(m[5].value, "EXACT"@)
    &&& m[6].key@ == "currency"@ && string_value(m[6].value, currency)
    &&& m[7].key@ == "participants"@ && m[7].value is Array && m[7].value->Array_0@ == participants
    &&& m[8].key@ == "expenseDate"@ && string_value(m[8].value, date)
}

/// `paths` are "amount" and the BigInt paths of the participants.
pub open spec fn expense_bigint_paths(paths: Seq<&str>, n: int) -> bool {
    &&& paths.len() == n + 1
    &&& paths[0]@ == "amount"@
    &&& forall|i: int| 1 <= i <= n ==> (#[trigger] paths[i])@ == array_path("participants"@, "amount"@, (i - 1) as nat)
}

/// `body` is the mutation body `{"json": data, "meta": ..}` of an
/// expense's data (`expense_data_is`, whatever its participants).
pub open spec fn create_body_is(body: JsonValue, paid_by: i64, name: Seq<char>, amount: i64, currency: Seq<char>, date: Seq<char>) -> bool {
    match body {
        JsonValue::Object(outer) => outer@.len() == 2 && outer@[0].key@ == "json"@ && outer@[1].key@ == "meta"@ && match outer@[0].value {
            JsonValue::Object(m) => m@.len() == 9 && match m@[7].value {
                JsonValue::Array(a) => expense_data_is(m@, paid_by, name, amount, currency, a@, date),
                _ => false,
            },
            _ => false,
        },
        _ => false,
    }
}

/// `v` is an object with the single string member `key`.
pub open spec fn single_string_object(v: JsonValue, key: Seq<char>, value: Seq<char>) -> bool {
    match v {
        JsonValue::Object(m) => m@.len() == 1 && m@[0].key@ == key && string_value(m@[0].value, value),
        _ => false,
    }
}

/// `v` is an object with the single member `key`.
pub open spec fn single_member_object(v: JsonValue, key: Seq<char>, value: JsonValue) -> bool {
    match v {
        JsonValue::Object(m) => m@.len() == 1 && m@[0].key@ == key && m@[0].value == value,
        _ => false,
    }
}

/// The positions of the users that fail to convert.
pub open spec fn fails_at(users: Seq<ExpenseUser>) -> spec_fn(int) -> bool {
    |k: int| !participant_converts(users[k])
}

/// The first user that fails to convert.
pub open spec fn first_failing(users: Seq<ExpenseUser>) -> Option<int> {
    first_where(users.len() as int, fails_at(users))
}

/// A user that fails to convert after all before it converted is the first
/// that fails.
pub proof fn lemma_first_failing(users: Seq<ExpenseUser>, i: int)
    requires
        0 <= i < users.len(),
        !participant_converts(users[i]),
        forall|j: int| 0 <= j < i ==> participant_converts(#[trigger] users[j]),
    ensures
        first_failing(users) == Some(i),
{
    let p = fails_at(users);
    lemma_first_where(i, i, p);
    assert(first_where(i, p) is None) by {
        if first_where(i, p) is Some {
            let k = first_where(i, p)->0;
            assert(p(k));
        }
    }
    assert(first_where(i + 1, p) == Some(i));
    lemma_first_where(i + 1, users.len() as int, p);
}

/// The error, if any, of credentials that lack what a mutation needs:
/// the base URL, the session token and the user ID, in that order.
pub open spec fn credentials_error(c: JsonValue) -> Option<SplitErrorView> {
    if base_url_of(c) is None {
        Some(SplitErrorView::ConfigurationError("Missing base_url in credentials"@))
    } else if field_str(c, "session_token"@) is None {
        Some(SplitErrorView::ConfigurationError("Missing session_token in credentials"@))
    } else if field_i64(c, "splitpro_user_id"@) is None {
        Some(SplitErrorView::ConfigurationError("Missing splitpro_user_id in credentials"@))
    } else {
        None
    }
}

/// The error, if any, of creating an expense: that of the credentials, of
/// the first user that fails to convert, or of the cost.
pub open spec fn create_error(c: JsonValue, users: Seq<ExpenseUser>, cost: Seq<char>) -> Option<SplitErrorView> {
    match credentials_error(c) {
        Some(e) => Some(e),
        None => match first_failing(users) {
            Some(i) => Some(participant_error(users[i])),
            None => match amount_to_bigint_spec(cost) {
                Err(m) => Some(SplitErrorView::ApiError("Failed to convert amount: "@ + m)),
                Ok(_) => None,
            },
        },
    }
}

/// The members of the data in a mutation body `{"json": data, "meta": ..}`.
pub open spec fn body_data(body: JsonValue) -> Option<Seq<JsonMember>> {
    match body {
        JsonValue::Object(outer) => if outer@.len() == 2 && outer@[0].key@ == "json"@ && outer@[1].key@ == "meta"@ {
            match outer@[0].value {
                JsonValue::Object(m) => Some(m@),
                _ => None,
            }
        } else {
            None
        },
        _ => None,
    }
}

/// The participants member of expense data.
pub open spec fn data_participants(m: Seq<JsonMember>) -> Seq<JsonValue> {
    match m[7].value {
        JsonValue::Array(a) => a@,
        _ => Seq::empty(),
    }
}

/// `a` are the participants built from `users` (`build_participants`).
pub open spec fn participants_of(a: Seq<JsonValue>, users: Seq<ExpenseUser>) -> bool {
    &&& a.len() == users.len()
    &&& forall|i: int|
        0 <= i < users.len() ==> is_participant_json(#[trigger] a[i], parsed_id(users[i]), participant_amount(users[i]))
}

/// The positions of the existing users whose owed share does not convert.
pub open spec fn owed_fails_at(users: Seq<ExternalExpenseUser>) -> spec_fn(int) -> bool {
    |k: int| amount_to_bigint_spec(users[k].owed_share@) is Err
}

/// A field of an update, or else the expense's.
pub open spec fn merged_text(update: Option<String>, existing: Seq<char>) -> Seq<char> {
    match update {
        Some(t) => t@,
        None => existing,
    }
}

/// The error, if any, of updating an expense: that of the credentials, of
/// the merged cost, then of the new users (the first that fails to
/// convert) or, where the update keeps the users, of the first existing
/// owed share that does not convert.
pub open spec fn update_error(c: JsonValue, request: UpdateExternalExpense, existing: ExternalExpenseDetail) -> Option<SplitErrorView> {
    match credentials_error(c) {
        Some(e) => Some(e),
        None => match amount_to_bigint_spec(merged_text(request.cost, existing.cost@)) {
            Err(m) => Some(SplitErrorView::ApiError("Failed to convert amount: "@ + m)),
            Ok(_) => match request.users {
                Some(u) => match first_failing(u@) {
                    Some(i) => Some(participant_error(u@[i])),
                    None => None,
                },
                None => match first_where(existing.users@.len() as int, owed_fails_at(existing.users@)) {
                    Some(i) => match amount_to_bigint_spec(existing.users@[i].owed_share@) {
                        Err(m) => Some(SplitErrorView::ApiError("Failed to convert owed_share: "@ + m)),
                        Ok(_) => None,
                    },
                    None => None,
                },
            },
        },
    }
}

/// `a` are the participants kept from an expense's existing users: each
/// with their SplitPro ID (0 where it does not read as one) and their owed
/// share in minor units.
pub open spec fn kept_participants_of(a: Seq<JsonValue>, users: Seq<ExternalExpenseUser>) -> bool {
    &&& a.len() == users.len()
    &&& forall|i: int|
        0 <= i < users.len() ==> is_participant_json(
            #[trigger] a[i],
            match parse_i64_spec(users[i].external_user_id@) {
                Ok(v) => v,
                Err(_) => 0,
            },
            amount_to_bigint_spec(users[i].owed_share@)->Ok_0,
        )
}

/// The payer among an expense's existing users: the first who paid
/// something, by their SplitPro ID where it reads as one, else `default`.
pub open spec fn existing_payer_of(users: Seq<ExternalExpenseUser>, paid_something: Seq<bool>, default: i64) -> i64 {
    match first_where(users.len() as int, |k: int| paid_something[k]) {
        Some(k) => match parse_i64_spec(users[k].external_user_id@) {
            Ok(v) => v as i64,
            Err(_) => default,
        },
        None => default,
    }
}

/// `body` carries the data of an edited expense: `expenseId` first, then
/// the members of `expense_data_is`.
pub open spec fn update_body_is(
    body: JsonValue,
    expense_id: Seq<char>,
    paid_by: i64,
    name: Seq<char>,
    amount: i64,
    currency: Seq<char>,
    date: Seq<char>,
) -> bool {
    match body_data(body) {
        Some(m) => m.len() == 10 && m[0].key@ == "expenseId"@ && string_value(m[0].value, expense_id) && match m[8].value {
            JsonValue::Array(a) => expense_data_is(m.skip(1), paid_by, name, amount, currency, a@, date),
            _ => false,
        },
        None => false,
    }
}

/// Whether an existing expense's owed shares all convert without overflow.
pub open spec fn owed_shares_fit(users: Seq<ExternalExpenseUser>) -> bool {
    forall|i: int| 0 <= i < users.len() ==> amount_to_bigint_fits(#[trigger] users[i].owed_share@)
}

/// The participants kept from an expense's existing users
/// (`kept_participants_of`) and their BigInt paths; fails at the first owed
/// share that does not convert.
fn kept_participants(users: &Vec<ExternalExpenseUser>) -> (res: Result<(Vec<JsonValue>, Vec<String>), SplitProviderError>)
    requires
        owed_shares_fit(users@),
    ensures
        match first_where(users@.len() as int, owed_fails_at(users@)) {
            Some(i) => match res {
                Err(e) => match amount_to_bigint_spec(users@[i].owed_share@) {
                    Err(m) => split_error_view(e) == SplitErrorView::ApiError("Failed to convert owed_share: "@ + m),
                    Ok(_) => false,
                },
                Ok(_) => false,
            },
            None => match res {
                Ok(out) => {
                    &&& kept_participants_of(out.0@, users@)
                    &&& out.1@.len() == users@.len()
                    &&& forall|i: int|
                        0 <= i < users@.len() ==> (#[trigger] out.1@[i])@ == array_path("participants"@, "amount"@, i as nat)
                },
                Err(_) => false,
            },
        },
{
    let ghost p = owed_fails_at(users@);
    let mut parts: Vec<JsonValue> = Vec::new();
    let mut paths: Vec<String> = Vec::new();
    let mut i: usize = 0;
    while i < users.len()
        invariant
            i <= users@.len(),
            owed_shares_fit(users@),
            p == owed_fails_at(users@),
            first_where(i as int, p) is None,
            parts@.len() == i,
            paths@.len() == i,
            forall|j: int|
                0 <= j < i ==> is_participant_json(
                    #[trigger] parts@[j],
                    match parse_i64_spec(users@[j].external_user_id@) {
                        Ok(v) => v,
                        Err(_) => 0,
                    },
                    amount_to_bigint_spec(users@[j].owed_share@)->Ok_0,
                ),
            forall|j: int| 0 <= j < i ==> (#[trigger] paths@[j])@ == array_path("participants"@, "amount"@, j as nat),
        decreases users@.len() - i,
    {
        let user = &users[i];
        assert(amount_to_bigint_fits(users@[i as int].owed_share@));
        let owed = match amount_to_bigint(user.owed_share.as_str()) {
            Ok(v) => v,
            Err(e) => {
                proof {
                    lemma_first_where(i + 1, users@.len() as int, p);
                }
                let mut m = owned("Failed to convert owed_share: ");
                push_str(&mut m, e.as_str());
                return Err(SplitProviderError::ApiError(m));
            },
        };
        let user_id: i64 = match parse_i64(user.external_user_id.as_str()) {
            Ok(v) => v,
            Err(_) => 0,
        };
        parts.push(participant_json(user_id, owed));
        let mut path = owned("participants.");
        push_u64_digits(&mut path, i as u64);
        push_str(&mut path, ".amount");
        proof {
            reveal_strlit("participants.");
            reveal_strlit("participants");
            reveal_strlit(".amount");
            reveal_strlit("amount");
            assert(path@ =~= array_path("participants"@, "amount"@, i as nat));
        }
        paths.push(path);
        i = i + 1;
    }
    proof {
        lemma_first_where(users@.len() as int, users@.len() as int, p);
    }
    Ok((parts, paths))
}

/// The payer among an expense's existing users (`existing_payer_of`).
fn existing_payer(users: &Vec<ExternalExpenseUser>, paid_something: &Vec<bool>, default_user_id: i64) -> (res: i64)
    requires
        paid_something@.len() == users@.len(),
    ensures
        res == existing_payer_of(users@, paid_something@, default_user_id),
{
    let ghost p = |k: int| paid_something@[k];
    let mut i: usize = 0;
    while i < users.len()
        invariant
            i <= users@.len(),
            paid_something@.len() == users@.len(),
            p == (|k: int| paid_something@[k]),
            first_where(i as int, p) is None,
        decreases users@.len() - i,
    {
        if paid_something[i] {
            proof {
                lemma_first_where(i + 1, users@.len() as int, p);
            }
            return match parse_i64(users[i].external_user_id.as_str()) {
                Ok(v) => v,
                Err(_) => default_user_id,
            };
        }
        i = i + 1;
    }
    proof {
        lemma_first_where(users@.len() as int, users@.len() as int, p);
    }
    default_user_id
}

/// Whether an entry of SplitPro's answer reads as an expense: it has an ID
/// and is not marked deleted.
pub open spec fn is_listed(e: JsonValue) -> bool {
    field_str_or(e, "id"@, ""@).len() != 0 && !marked_deleted(e)
}

/// `v` are the entries of `a` that read as expenses, in order, each read
/// by `expense_read`.
pub open spec fn listing_read(v: Seq<ExternalExpenseDetail>, a: Seq<JsonValue>) -> bool {
    let kept = indices_where(a.len() as int, |k: int| is_listed(a[k]));
    &&& v.len() == kept.len()
    &&& forall|i: int| 0 <= i < v.len() ==> expense_read(#[trigger] v[i], a[kept[i]])
}

/// "amount" followed by the participants' BigInt paths.
fn amount_and_paths(participant_paths: &Vec<String>) -> (res: Vec<&str>)
    ensures
        res@.len() == participant_paths@.len() + 1,
        res@[0]@ == "amount"@,
        forall|j: int| 1 <= j < res@.len() ==> (#[trigger] res@[j])@ == participant_paths@[j - 1]@,
{
    let mut bigint_paths: Vec<&str> = Vec::new();
    bigint_paths.push("amount");
    let mut i: usize = 0;
    while i < participant_paths.len()
        invariant
            i <= participant_paths@.len(),
            bigint_paths@.len() == i + 1,
            bigint_paths@[0]@ == "amount"@,
            forall|j: int| 1 <= j <= i ==> (#[trigger] bigint_paths@[j])@ == participant_paths@[j - 1]@,
        decreases participant_paths@.len() - i,
    {
        bigint_paths.push(participant_paths[i].as_str());
        i = i + 1;
    }
    bigint_paths
}

/// What a SplitPro mutation is sent with.
#[derive(Debug)]
pub struct SplitProMutation {
    pub base_url: String,
    pub session_token: String,
    pub body: JsonValue,
}

impl SplitProProvider {
    /// The payer of an expense (`payer_of`).
    pub fn determine_payer(users: &[ExpenseUser], paid_something: &Vec<bool>, default_user_id: i64) -> (res: i64)
        requires
            paid_something@.len() == users@.len(),
        ensures
            res == payer_of(users@, paid_something@, default_user_id),
    {
        let ghost p = |k: int| paid_something@[k];
        let mut i: usize = 0;
        while i < users.len()
            invariant
                i <= users@.len(),
                paid_something@.len() == users@.len(),
                p == (|k: int| paid_something@[k]),
                forall|j: int| 0 <= j < i ==> !#[trigger] p(j),
            decreases users@.len() - i,
        {
            if paid_something[i] {
                proof {
                    assert(p(i as int));
                    lemma_first_where(i as int, i as int, p);
                    assert(first_where(i as int, p) is None);
                    assert(first_where(i + 1, p) == Some(i as int));
                    lemma_first_where(i + 1, users@.len() as int, p);
                }
                return match parse_i64(users[i].external_user_id.as_str()) {
                    Ok(v) => v,
                    Err(_) => default_user_id,
                };
            }
            assert(!p(i as int));
            i = i + 1;
        }
        proof {
            lemma_first_where(users@.len() as int, users@.len() as int, p);
            if first_where(users@.len() as int, p) is Some {
                let k = first_where(users@.len() as int, p)->0;
                assert(p(k));
            }
        }
        default_user_id
    }

    /// SplitPro's expense data: `expenseId` (for an edit), then payer, name,
    /// category "general", amount in minor units, no group, exact split,
    /// currency, participants and date.
    pub fn expense_data(
        expense_id: Option<&str>,
        paid_by: i64,
        name: &str,
        amount: i64,
        currency: &str,
        participants: Vec<JsonValue>,
        date: String,
    ) -> (res: JsonValue)
        ensures
            match res {
                JsonValue::Object(m) => match expense_id {
                    Some(id) => m@.len() == 10 && m@[0].key@ == "expenseId"@ && string_value(m@[0].value, id@)
                        && expense_data_is(m@.skip(1), paid_by, name@, amount, currency@, participants@, date@),
                    None => expense_data_is(m@, paid_by, name@, amount, currency@, participants@, date@),
                },
                _ => false,
            },
    {
        let ghost parts = participants@;
        let ghost date_view = date@;
        let mut m: Vec<JsonMember> = Vec::new();
        match expense_id {
            Some(id) => {
                m.push(JsonMember { key: owned("expenseId"), value: JsonValue::String(owned(id)) });
            },
            None => {},
        }
        let start = m.len();
        m.push(JsonMember { key: owned("paidBy"), value: JsonValue::Number(JsonNumber::Int(paid_by)) });
        m.push(JsonMember { key: owned("name"), value: JsonValue::String(owned(name)) });
        m.push(JsonMember { key: owned("category"), value: JsonValue::String(owned("general")) });
        m.push(JsonMember { key: owned("amount"), value: JsonValue::String(i64_text(amount)) });
        m.push(JsonMember { key: owned("groupId"), value: JsonValue::Null });
        m.push(JsonMember { key: owned("splitType"), value: JsonValue::String(owned("EXACT")) });
        m.push(JsonMember { key: owned("currency"), value: JsonValue::String(owned(currency)) });
        m.push(JsonMember { key: owned("participants"), value: JsonValue::Array(participants) });
        m.push(JsonMember { key: owned("expenseDate"), value: JsonValue::String(date) });
        proof {
            let rest = m@.skip(start as int);
            assert(rest.len() == 9);
            assert forall|i: int| 0 <= i < 9 implies rest[i] == m@[start + i] by {}
            if expense_id is None {
                assert(rest =~= m@);
            }
        }
        JsonValue::Object(m)
    }

    /// The mutation that creates an expense: the credentials' base URL,
    /// session token and user ID (required, in that order); the
    /// participants; the payer (the credentials' user by default); the cost
    /// in minor units; the date as `%Y-%m-%dT%H:%M:%S%.3fZ`. Each failure
    /// is `create_error`'s; `None` where the date has no calendar day.
    pub fn create_expense_mutation(credentials: &JsonValue, request: &CreateExternalExpense, paid_something: &Vec<bool>) -> (res:
        Option<Result<SplitProMutation, SplitProviderError>>)
        requires
            participants_fit(request.users@),
            amount_to_bigint_fits(request.cost@),
            paid_something@.len() == request.users@.len(),
        ensures
            match create_error(*credentials, request.users@, request.cost@) {
                Some(v) => match res {
                    Some(Err(e)) => split_error_view(e) == v,
                    _ => false,
                },
                None => match res {
                    Some(Ok(r)) => {
                        &&& base_url_of(*credentials) == Some(r.base_url@)
                        &&& field_str(*credentials, "session_token"@) == Some(r.session_token@)
                        &&& formatted_utc(request.date, "%Y-%m-%dT%H:%M:%S%.3fZ"@) is Some
                        &&& create_body_is(
                            r.body,
                            payer_of(request.users@, paid_something@, field_i64(*credentials, "splitpro_user_id"@)->0),
                            request.description@,
                            amount_to_bigint_spec(request.cost@)->Ok_0 as i64,
                            request.currency_code@,
                            formatted_utc(request.date, "%Y-%m-%dT%H:%M:%S%.3fZ"@)->0,
                        )
                        &&& body_data(r.body) matches Some(m) && participants_of(data_participants(m), request.users@)
                    },
                    Some(Err(_)) => false,
                    None => formatted_utc(request.date, "%Y-%m-%dT%H:%M:%S%.3fZ"@) is None,
                },
            },
    {
        let base_url = match SplitProProvider::get_base_url(credentials) {
            Ok(b) => b,
            Err(e) => {
                return Some(Err(e));
            },
        };
        let session_token = match SplitProProvider::get_session_token(credentials) {
            Ok(t) => t,
            Err(e) => {
                return Some(Err(e));
            },
        };
        let user_id = match SplitProProvider::get_splitpro_user_id(credentials) {
            Ok(u) => u,
            Err(e) => {
                return Some(Err(e));
            },
        };
        let (participants, participant_paths) = match SplitProProvider::build_participants(request.users.as_slice()) {
            Ok(x) => x,
            Err(e) => {
                proof {
                    let i = choose|i: int|
                        0 <= i < request.users@.len() && !participant_converts(#[trigger] request.users@[i]) && (forall|j: int|
                            0 <= j < i ==> participant_converts(#[trigger] request.users@[j])) && split_error_view(e)
                            == participant_error(request.users@[i]);
                    lemma_first_failing(request.users@, i);
                }
                return Some(Err(e));
            },
        };
        proof {
            lemma_first_where(request.users@.len() as int, request.users@.len() as int, fails_at(request.users@));
        }
        let ghost parts = participants@;
        let paid_by = SplitProProvider::determine_payer(request.users.as_slice(), paid_something, user_id);
        let amount = match amount_to_bigint(request.cost.as_str()) {
            Ok(a) => a,
            Err(e) => {
                let mut m = owned("Failed to convert amount: ");
                push_str(&mut m, e.as_str());
                return Some(Err(SplitProviderError::ApiError(m)));
            },
        };
        proof {
            reveal_strlit("%Y-%m-%dT%H:%M:%S%.3fZ");
        }
        let date = match format_utc(request.date, "%Y-%m-%dT%H:%M:%S%.3fZ") {
            Some(d) => d,
            None => {
                return None;
            },
        };
        let data = SplitProProvider::expense_data(
            None,
            paid_by,
            request.description.as_str(),
            amount,
            request.currency_code.as_str(),
            participants,
            date,
        );
        let bigint_paths = amount_and_paths(&participant_paths);
        let mut date_paths: Vec<&str> = Vec::new();
        date_paths.push("expenseDate");
        let body = encode_mutation_body_with_dates(data, bigint_paths.as_slice(), date_paths.as_slice());
        assert(participants_of(parts, request.users@));
        Some(Ok(SplitProMutation { base_url, session_token, body }))
    }

    /// The mutation that edits expense `external_expense_id`, merging the
    /// update into the existing expense: its description and cost where
    /// the update has none (the cost in minor units), participants from the
    /// update's users or else kept from the existing users (their owed
    /// shares), the payer decided from the same users (the credentials'
    /// user by default), the existing currency, and the update's date as
    /// `%Y-%m-%dT%H:%M:%S%.3fZ` or else the existing one. Each failure is
    /// `update_error`'s; `None` where the update's date has no calendar day.
    pub fn update_expense_mutation(
        credentials: &JsonValue,
        external_expense_id: &str,
        request: &UpdateExternalExpense,
        existing: &ExternalExpenseDetail,
        request_paid: &Vec<bool>,
        existing_paid: &Vec<bool>,
    ) -> (res: Option<Result<SplitProMutation, SplitProviderError>>)
        requires
            amount_to_bigint_fits(merged_text(request.cost, existing.cost@)),
            owed_shares_fit(existing.users@),
            existing_paid@.len() == existing.users@.len(),
            request.users matches Some(u) ==> participants_fit(u@) && request_paid@.len() == u@.len(),
        ensures
            match update_error(*credentials, *request, *existing) {
                Some(v) => match res {
                    Some(Err(e)) => split_error_view(e) == v,
                    _ => false,
                },
                None => {
                    let user_id = field_i64(*credentials, "splitpro_user_id"@)->0;
                    let date = match request.date {
                        Some(d) => formatted_utc(d, "%Y-%m-%dT%H:%M:%S%.3fZ"@),
                        None => Some(existing.date@),
                    };
                    match res {
                        Some(Ok(r)) => {
                            &&& base_url_of(*credentials) == Some(r.base_url@)
                            &&& field_str(*credentials, "session_token"@) == Some(r.session_token@)
                            &&& date is Some
                            &&& update_body_is(
                                r.body,
                                external_expense_id@,
                                match request.users {
                                    Some(u) => payer_of(u@, request_paid@, user_id),
                                    None => existing_payer_of(existing.users@, existing_paid@, user_id),
                                },
                                merged_text(request.description, existing.description@),
                                amount_to_bigint_spec(merged_text(request.cost, existing.cost@))->Ok_0 as i64,
                                existing.currency_code@,
                                date->0,
                            )
                            &&& body_data(r.body) matches Some(m) && match request.users {
                                Some(u) => participants_of(data_participants(m.skip(1)), u@),
                                None => kept_participants_of(data_participants(m.skip(1)), existing.users@),
                            }
                        },
                        Some(Err(_)) => false,
                        None => date is None,
                    }
                },
            },
    {
        let base_url = match SplitProProvider::get_base_url(credentials) {
            Ok(b) => b,
            Err(e) => {
                return Some(Err(e));
            },
        };
        let session_token = match SplitProProvider::get_session_token(credentials) {
            Ok(t) => t,
            Err(e) => {
                return Some(Err(e));
            },
        };
        let user_id = match SplitProProvider::get_splitpro_user_id(credentials) {
            Ok(u) => u,
            Err(e) => {
                return Some(Err(e));
            },
        };
        let description = match &request.description {
            Some(d) => d.clone(),
            None => existing.description.clone(),
        };
        let cost = match &request.cost {
            Some(c) => c.clone(),
            None => existing.cost.clone(),
        };
        let amount = match amount_to_bigint(cost.as_str()) {
            Ok(a) => a,
            Err(e) => {
                let mut m = owned("Failed to convert amount: ");
                push_str(&mut m, e.as_str());
                return Some(Err(SplitProviderError::ApiError(m)));
            },
        };
        let (participants, participant_paths, paid_by) = match &request.users {
            Some(users) => {
                let (parts, paths) = match SplitProProvider::build_participants(users.as_slice()) {
                    Ok(x) => x,
                    Err(e) => {
                        proof {
                            let i = choose|i: int|
                                0 <= i < users@.len() && !participant_converts(#[trigger] users@[i]) && (forall|j: int|
                                    0 <= j < i ==> participant_converts(#[trigger] users@[j])) && split_error_view(e)
                                    == participant_error(users@[i]);
                            lemma_first_failing(users@, i);
                        }
                        return Some(Err(e));
                    },
                };
                proof {
                    lemma_first_where(users@.len() as int, users@.len() as int, fails_at(users@));
                }
                let payer = SplitProProvider::determine_payer(users.as_slice(), request_paid, user_id);
                (parts, paths, payer)
            },
            None => {
                let (parts, paths) = match kept_participants(&existing.users) {
                    Ok(x) => x,
                    Err(e) => {
                        return Some(Err(e));
                    },
                };
                let payer = existing_payer(&existing.users, existing_paid, user_id);
                (parts, paths, payer)
            },
        };
        let ghost parts = participants@;
        proof {
            reveal_strlit("%Y-%m-%dT%H:%M:%S%.3fZ");
        }
        let date = match request.date {
            Some(d) => match format_utc(d, "%Y-%m-%dT%H:%M:%S%.3fZ") {
                Some(t) => t,
                None => {
                    return None;
                },
            },
            None => existing.date.clone(),
        };
        let data = SplitProProvider::expense_data(
            Some(external_expense_id),
            paid_by,
            description.as_str(),
            amount,
            existing.currency_code.as_str(),
            participants,
            date,
        );
        let bigint_paths = amount_and_paths(&participant_paths);
        let mut date_paths: Vec<&str> = Vec::new();
        date_paths.push("expenseDate");
        let body = encode_mutation_body_with_dates(data, bigint_paths.as_slice(), date_paths.as_slice());
        Some(Ok(SplitProMutation { base_url, session_token, body }))
    }

    /// The error of an update whose expense SplitPro does not have.
    pub fn missing_expense(external_expense_id: &str) -> (res: SplitProviderError)
        ensures
            split_error_view(res) == SplitErrorView::NotFound("Expense "@ + external_expense_id@ + " not found"@),
    {
        let mut m = owned("Expense ");
        push_str(&mut m, external_expense_id);
        push_str(&mut m, " not found");
        SplitProviderError::NotFound(m)
    }

    /// The expenses of SplitPro's answer to a listing: its data must decode
    /// and be an array; the entries that read as expenses, in order.
    pub fn expenses_from_answer(response: &JsonValue) -> (res: Result<Vec<ExternalExpenseDetail>, SplitProviderError>)
        ensures
            match decoded_data(*response) {
                None => match res {
                    Err(e) => split_error_view(e) == SplitErrorView::InvalidResponse("Failed to decode tRPC response"@),
                    Ok(_) => false,
                },
                Some(JsonValue::Array(a)) => match res {
                    Ok(v) => listing_read(v@, a@),
                    Err(_) => false,
                },
                Some(_) => match res {
                    Err(e) => split_error_view(e) == SplitErrorView::InvalidResponse("Expected array of expenses"@),
                    Ok(_) => false,
                },
            },
    {
        let data = match decode_response(response) {
            Some(d) => d,
            None => {
                return Err(SplitProviderError::InvalidResponse(owned("Failed to decode tRPC response")));
            },
        };
        let a = match data {
            JsonValue::Array(a) => a,
            _ => {
                return Err(SplitProviderError::InvalidResponse(owned("Expected array of expenses")));
            },
        };
        let ghost p = |k: int| is_listed(a@[k]);
        let mut out: Vec<ExternalExpenseDetail> = Vec::new();
        let mut k: usize = 0;
        while k < a.len()
            invariant
                k <= a@.len(),
                p == (|k: int| is_listed(a@[k])),
                out@.len() == indices_where(k as int, p).len(),
                forall|i: int| 0 <= i < out@.len() ==> expense_read(#[trigger] out@[i], a@[indices_where(k as int, p)[i]]),
            decreases a@.len() - k,
        {
            match SplitProProvider::parse_expense(&a[k]) {
                Some(d) => {
                    assert(p(k as int));
                    out.push(d);
                    assert forall|i: int| 0 <= i < out@.len() implies expense_read(
                        #[trigger] out@[i],
                        a@[indices_where(k + 1, p)[i]],
                    ) by {
                        if i < out@.len() - 1 {
                            assert(indices_where(k + 1, p)[i] == indices_where(k as int, p)[i]);
                        }
                    }
                },
                None => {
                    assert(!p(k as int));
                },
            }
            k = k + 1;
        }
        Ok(out)
    }

    /// The expense of SplitPro's answer to a lookup: none where the data
    /// does not decode or is null, else the data read as an expense.
    pub fn expense_from_answer(response: &JsonValue) -> (res: Option<ExternalExpenseDetail>)
        ensures
            match decoded_data(*response) {
                Some(d) => if d is Null {
                    res is None
                } else {
                    (res is None <==> !is_listed(d)) && match res {
                        Some(x) => expense_read(x, d),
                        None => true,
                    }
                },
                None => res is None,
            },
    {
        match decode_response(response) {
            Some(d) => if d.is_null() {
                None
            } else {
                SplitProProvider::parse_expense(d)
            },
            None => None,
        }
    }

    /// The address of an expense on SplitPro.
    pub fn expense_url(base_url: &str, expense_id: &str) -> (res: String)
        ensures
            res@ == base_url@ + "/expenses/"@ + expense_id@,
    {
        let mut u = owned(base_url);
        push_str(&mut u, "/expenses/");
        push_str(&mut u, expense_id);
        u
    }

    /// The result of creating an expense, from the decoded answer: the ID
    /// of its first expense (an array of them answers), or its own ID; an
    /// empty or missing ID is an invalid answer.
    pub fn created_expense(base_url: &str, data: &JsonValue) -> (res: Result<ExternalExpenseResult, SplitProviderError>)
        ensures
            ({
                let id = match data {
                    JsonValue::Array(a) => if a@.len() > 0 {
                        field_str_or(a@[0], "id"@, ""@)
                    } else {
                        ""@
                    },
                    _ => field_str_or(*data, "id"@, ""@),
                };
                if id.len() == 0 {
                    res matches Err(e) && split_error_view(e) == SplitErrorView::InvalidResponse(
                        "No expense ID in response"@,
                    )
                } else {
                    res matches Ok(r) && r.external_expense_id@ == id && r.external_url == Some(
                        r.external_url->0,
                    ) && r.external_url->0@ == base_url@ + "/expenses/"@ + id
                }
            }),
    {
        let id = match data {
            JsonValue::Array(a) => if a.len() > 0 {
                str_field_or(&a[0], "id", "")
            } else {
                owned("")
            },
            _ => str_field_or(data, "id", ""),
        };
        proof {
            reveal_strlit("");
        }
        if id.as_str().unicode_len() == 0 {
            return Err(SplitProviderError::InvalidResponse(owned("No expense ID in response")));
        }
        let url = SplitProProvider::expense_url(base_url, id.as_str());
        Ok(ExternalExpenseResult { external_expense_id: id, external_url: Some(url) })
    }

    /// The mutation body that deletes an expense.
    pub fn delete_expense_body(expense_id: &str) -> (res: JsonValue)
        ensures
            res matches JsonValue::Object(outer) && outer@.len() == 1 && outer@[0].key@ == "json"@ && single_string_object(
                outer@[0].value,
                "expenseId"@,
                expense_id@,
            ),
    {
        let mut m: Vec<JsonMember> = Vec::new();
        m.push(JsonMember { key: owned("expenseId"), value: JsonValue::String(owned(expense_id)) });
        let none: Vec<&str> = Vec::new();
        crate::services::split_provider::superjson::encode_mutation_body(JsonValue::Object(m), none.as_slice())
    }

    /// The query input of the expenses shared with a friend: the friend's
    /// SplitPro ID, which is required and must be an integer.
    pub fn friend_query(friend_id: Option<&str>) -> (res: Result<JsonValue, SplitProviderError>)
        ensures
            match friend_id {
                None => res matches Err(e) && split_error_view(e) == SplitErrorView::ConfigurationError(
                    "friend_id is required for SplitPro expense queries"@,
                ),
                Some(f) => match parse_i64_spec(f@) {
                    Ok(v) => res matches Ok(q) && single_member_object(q, "friendId"@, JsonValue::Number(JsonNumber::Int(v as i64))),
                    Err(_) => res matches Err(e) && split_error_view(e) == SplitErrorView::ConfigurationError(
                        "Invalid friend_id format"@,
                    ),
                },
            },
    {
        let f = match friend_id {
            Some(f) => f,
            None => {
                return Err(SplitProviderError::ConfigurationError(owned("friend_id is required for SplitPro expense queries")));
            },
        };
        let id = match parse_i64(f) {
            Ok(v) => v,
            Err(_) => {
                return Err(SplitProviderError::ConfigurationError(owned("Invalid friend_id format")));
            },
        };
        let mut m: Vec<JsonMember> = Vec::new();
        m.push(JsonMember { key: owned("friendId"), value: JsonValue::Number(JsonNumber::Int(id)) });
        Ok(JsonValue::Object(m))
    }
}

/// An expense is kept by the date bounds: its date text is not before
/// `after` and not after `before` (text order).
pub open spec fn within_dates(e: ExternalExpenseDetail, after: Option<Seq<char>>, before: Option<Seq<char>>) -> bool {
    &&& (after matches Some(a) ==> !lex_lt(e.date@, a))
    &&& (before matches Some(b) ==> !lex_lt(b, e.date@))
}

pub open spec fn opt_str(o: Option<&str>) -> Option<Seq<char>> {
    match o {
        Some(s) => Some(s@),
        None => None,
    }
}

impl SplitProProvider {
    /// The expenses within the date bounds, in order, at most `limit` of
    /// them.
    pub fn filter_expenses(
        expenses: Vec<ExternalExpenseDetail>,
        dated_after: Option<&str>,
        dated_before: Option<&str>,
        limit: Option<u32>,
    ) -> (res: Vec<ExternalExpenseDetail>)
        ensures
            ({
                let kept = indices_where(
                    expenses@.len() as int,
                    |k: int| within_dates(expenses@[k], opt_str(dated_after), opt_str(dated_before)),
                );
                let n = match limit {
                    Some(l) => if l < kept.len() { l as int } else { kept.len() as int },
                    None => kept.len() as int,
                };
                &&& res@.len() == n
                &&& forall|i: int| 0 <= i < n ==> #[trigger] res@[i] == expenses@[kept[i]]
            }),
    {
        let ghost p = |k: int| within_dates(expenses@[k], opt_str(dated_after), opt_str(dated_before));
        let ghost all = expenses@;
        let mut out: Vec<ExternalExpenseDetail> = Vec::new();
        let mut rest = expenses;
        let mut k: usize = 0;
        let n = rest.len();
        while rest.len() > 0
            invariant
                n == all.len(),
                k + rest@.len() == n,
                rest@ == all.skip(k as int),
                p == (|k: int| within_dates(all[k], opt_str(dated_after), opt_str(dated_before))),
                out@.len() == indices_where(k as int, p).len(),
                forall|i: int| 0 <= i < out@.len() ==> #[trigger] out@[i] == all[indices_where(k as int, p)[i]],
            decreases rest@.len(),
        {
            let e = rest.remove(0);
            assert(e == all[k as int]);
            let after_ok = match dated_after {
                Some(a) => crate::text::compare_text(e.date.as_str(), a) >= 0,
                None => true,
            };
            let before_ok = match dated_before {
                Some(b) => crate::text::compare_text(b, e.date.as_str()) >= 0,
                None => true,
            };
            assert(after_ok && before_ok <==> p(k as int));
            if after_ok && before_ok {
                out.push(e);
            }
            assert(rest@ =~= all.skip(k + 1));
            k = k + 1;
        }
        proof {
            assert(k == n);
        }
        match limit {
            Some(l) => {
                let l = l as usize;
                if l < out.len() {
                    out.truncate(l);
                }
            },
            None => {},
        }
        out
    }
}

} // verus!
