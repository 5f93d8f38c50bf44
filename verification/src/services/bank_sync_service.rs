//! The decisions of syncing bank transactions: access to a provider, the
//! access token, which fetched transactions are new, and how a selected
//! transaction is imported.
use vstd::prelude::*;
use crate::decimal::{decimal_text_2dp, decimal_to_string_2dp, Decimal};
use crate::errors::{api_error_view, ApiError, ApiErrorView};
use crate::json::{field_str, json_str, json_view, JsonMember, JsonNumber, JsonValue};
use crate::models::{is_before, Timestamp};
use crate::time::{format_rfc3339, rfc3339_text};
use crate::selection::indices_where;
use crate::services::bank_provider::types::{BankBalance, BankTransaction};
use crate::text::{contains_str, has_substring, owned, push_str, str_eq};
use crate::types::BankProviderType;
use crate::utils::encryption::{decrypt_credentials, opened_text, opt_view};
use vstd::utf8::encode_utf8;

verus! {

/// Attempts at a provider call before giving up.
pub const MAX_RETRIES: u32 = 3;

/// Days fetched when no start date is given.
pub const DEFAULT_LOOKBACK_DAYS: i64 = 30;

/// A bank connection of a user's account.
#[derive(Debug)]
pub struct BankProviderRecord {
    pub id: u128,
    pub user_id: u128,
    pub account_id: u128,
    pub provider_type: BankProviderType,
    /// The sealed credentials, as a JSON string
    pub credentials: JsonValue,
    pub external_account_id: Option<String>,
    pub is_active: bool,
}

/// A fetched transaction as the sync report shows it.
#[derive(Debug, Clone)]
pub struct FetchedBankTransaction {
    pub external_id: String,
    pub description: String,
    /// The amount with two decimals
    pub amount: String,
    pub currency: String,
    pub date: Timestamp,
    pub transaction_type: String,
    pub merchant_name: Option<String>,
    pub category: Option<String>,
    pub already_imported: bool,
}

#[derive(Debug, Clone, Copy, PartialEq, Eq, Structural)]
pub struct BankSyncSummary {
    pub total_fetched: i64,
    pub already_imported: i64,
    pub new_transactions: i64,
}

/// A balance as the sync report shows it (amounts with two decimals).
#[derive(Debug, Clone)]
pub struct BankBalanceInfo {
    pub current: String,
    pub available: Option<String>,
    pub currency: String,
    pub updated_at: Timestamp,
}

/// Checks that a bank connection can be synced by the user: it must be the
/// user's (others' read as not found) and active.
pub fn check_provider_access(record_user_id: u128, user_id: u128, is_active: bool, provider_id_text: &str) -> (res: Result<(), ApiError>)
    ensures
        record_user_id != user_id ==> (res matches Err(e) && api_error_view(e) == ApiErrorView::NotFound(
            "Bank provider "@ + provider_id_text@ + " not found"@,
        )),
        record_user_id == user_id && !is_active ==> (res matches Err(e) && api_error_view(e) == ApiErrorView::BadRequest(
            "Bank provider is not active. Please reconnect."@,
        )),
        record_user_id == user_id && is_active ==> res is Ok,
{
    if record_user_id != user_id {
        let mut m = owned("Bank provider ");
        push_str(&mut m, provider_id_text);
        push_str(&mut m, " not found");
        return Err(ApiError::NotFound(m));
    }
    if !is_active {
        return Err(ApiError::BadRequest(owned("Bank provider is not active. Please reconnect.")));
    }
    Ok(())
}

/// Whether `id` is among `ids`.
pub open spec fn id_listed(ids: Seq<String>, id: Seq<char>) -> bool {
    exists|k: int| 0 <= k < ids.len() && (#[trigger] ids[k])@ == id
}

fn contains_id(ids: &Vec<String>, id: &str) -> (res: bool)
    ensures
        res == id_listed(ids@, id@),
{
    let mut k: usize = 0;
    while k < ids.len()
        invariant
            k <= ids@.len(),
            forall|j: int| 0 <= j < k ==> (#[trigger] ids@[j])@ != id@,
        decreases ids@.len() - k,
    {
        if str_eq(ids[k].as_str(), id) {
            return true;
        }
        k = k + 1;
    }
    false
}

pub open spec fn opt_text(o: Option<String>) -> Option<Seq<char>> {
    match o {
        Some(s) => Some(s@),
        None => None,
    }
}

/// `f` is the report line of `t`.
pub open spec fn fetched_matches(f: FetchedBankTransaction, t: BankTransaction, imported: Seq<String>) -> bool {
    &&& f.external_id@ == t.transaction_id@
    &&& f.description@ == t.description@
    &&& f.amount@ == decimal_text_2dp(t.amount.mantissa as int, t.amount.scale as int)
    &&& f.currency@ == t.currency@
    &&& f.date == t.timestamp
    &&& f.transaction_type@ == t.transaction_type@
    &&& opt_text(f.merchant_name) == opt_text(t.merchant_name)
    &&& opt_text(f.category) == opt_text(t.category)
    &&& f.already_imported == id_listed(imported, t.transaction_id@)
}

/// The number of lines marked as already imported.
pub open spec fn imported_count(lines: Seq<FetchedBankTransaction>) -> nat {
    indices_where(lines.len() as int, |k: int| lines[k].already_imported).len()
}

/// The number of lines not yet imported.
pub open spec fn new_count(lines: Seq<FetchedBankTransaction>) -> nat {
    indices_where(lines.len() as int, |k: int| !lines[k].already_imported).len()
}

/// Every line is either already imported or new: the two counts add up to
/// the number of lines.
pub proof fn lemma_imported_and_new_partition(lines: Seq<FetchedBankTransaction>)
    ensures
        imported_count(lines) + new_count(lines) == lines.len(),
{
    let p = |k: int| lines[k].already_imported;
    let q = |k: int| !lines[k].already_imported;
    let r = |k: int| false;
    crate::selection::lemma_three_way_split(lines.len() as int, p, q, r);
    assert(indices_where(lines.len() as int, r).len() == 0) by {
        crate::selection::lemma_indices_where(lines.len() as int, r);
        if indices_where(lines.len() as int, r).len() > 0 {
            assert(r(indices_where(lines.len() as int, r)[0]));
        }
    }
}

fn copy_opt(o: &Option<String>) -> (res: Option<String>)
    ensures
        opt_text(res) == opt_text(*o),
{
    match o {
        Some(s) => Some(s.clone()),
        None => None,
    }
}

/// The lines of a sync report for the fetched transactions, each marked as
/// already imported when its ID is among `imported_ids`, and the counts.
pub fn build_sync_lines(bank_transactions: &Vec<BankTransaction>, imported_ids: &Vec<String>) -> (res: (Vec<FetchedBankTransaction>, BankSyncSummary))
    requires
        bank_transactions@.len() <= i64::MAX,
    ensures
        res.0@.len() == bank_transactions@.len(),
        forall|k: int| 0 <= k < res.0@.len() ==> fetched_matches(#[trigger] res.0@[k], bank_transactions@[k], imported_ids@),
        res.1.total_fetched == bank_transactions@.len(),
        res.1.already_imported == imported_count(res.0@),
        res.1.new_transactions == new_count(res.0@),
        res.1.already_imported + res.1.new_transactions == res.1.total_fetched,
{
    let mut lines: Vec<FetchedBankTransaction> = Vec::new();
    let mut k: usize = 0;
    while k < bank_transactions.len()
        invariant
            k <= bank_transactions@.len(),
            lines@.len() == k,
            forall|j: int| 0 <= j < k ==> fetched_matches(#[trigger] lines@[j], bank_transactions@[j], imported_ids@),
        decreases bank_transactions@.len() - k,
    {
        let t = &bank_transactions[k];
        let already = contains_id(imported_ids, t.transaction_id.as_str());
        lines.push(FetchedBankTransaction {
            external_id: t.transaction_id.clone(),
            description: t.description.clone(),
            amount: decimal_to_string_2dp(&t.amount),
            currency: t.currency.clone(),
            date: t.timestamp,
            transaction_type: t.transaction_type.clone(),
            merchant_name: copy_opt(&t.merchant_name),
            category: copy_opt(&t.category),
            already_imported: already,
        });
        k = k + 1;
    }
    let summary = refresh_imported_flags(&mut lines, imported_ids);
    proof {
        assert forall|j: int| 0 <= j < lines@.len() implies fetched_matches(#[trigger] lines@[j], bank_transactions@[j], imported_ids@) by {
        }
    }
    (lines, summary)
}

/// Re-marks each line of a sync report as already imported or not from the
/// current imported IDs, and counts them.
pub fn refresh_imported_flags(lines: &mut Vec<FetchedBankTransaction>, imported_ids: &Vec<String>) -> (res: BankSyncSummary)
    requires
        old(lines)@.len() <= i64::MAX,
    ensures
        final(lines)@.len() == old(lines)@.len(),
        forall|k: int| 0 <= k < final(lines)@.len() ==> {
            let a = #[trigger] final(lines)@[k];
            let b = old(lines)@[k];
            &&& a.already_imported == id_listed(imported_ids@, b.external_id@)
            &&& a.external_id == b.external_id && a.description == b.description && a.amount == b.amount
            &&& a.currency == b.currency && a.date == b.date && a.transaction_type == b.transaction_type
            &&& a.merchant_name == b.merchant_name && a.category == b.category
        },
        res.total_fetched == old(lines)@.len(),
        res.already_imported == imported_count(final(lines)@),
        res.new_transactions == new_count(final(lines)@),
        res.already_imported + res.new_transactions == res.total_fetched,
{
    let ghost before = lines@;
    let ghost p = |k: int| lines@[k].already_imported;
    let mut already: i64 = 0;
    let mut fresh: i64 = 0;
    let mut k: usize = 0;
    while k < lines.len()
        invariant
            k <= lines@.len(),
            lines@.len() == before.len(),
            before.len() <= i64::MAX,
            forall|j: int| k <= j < lines@.len() ==> #[trigger] lines@[j] == before[j],
            forall|j: int| 0 <= j < k ==> {
                let a = #[trigger] lines@[j];
                let b = before[j];
                &&& a.already_imported == id_listed(imported_ids@, b.external_id@)
                &&& a.external_id == b.external_id && a.description == b.description && a.amount == b.amount
                &&& a.currency == b.currency && a.date == b.date && a.transaction_type == b.transaction_type
                &&& a.merchant_name == b.merchant_name && a.category == b.category
            },
            already == indices_where(k as int, |j: int| lines@[j].already_imported).len(),
            fresh == indices_where(k as int, |j: int| !lines@[j].already_imported).len(),
            already + fresh == k,
        decreases before.len() - k,
    {
        let flag = contains_id(imported_ids, lines[k].external_id.as_str());
        let ghost prev = lines@;
        lines[k].already_imported = flag;
        proof {
            assert(indices_where(k as int, |j: int| lines@[j].already_imported) =~= indices_where(k as int, |j: int| prev[j].already_imported)) by {
                lemma_indices_same_prefix(k as int, |j: int| lines@[j].already_imported, |j: int| prev[j].already_imported);
            }
            assert(indices_where(k as int, |j: int| !lines@[j].already_imported) =~= indices_where(k as int, |j: int| !prev[j].already_imported)) by {
                lemma_indices_same_prefix(k as int, |j: int| !lines@[j].already_imported, |j: int| !prev[j].already_imported);
            }
        }
        if flag {
            already = already + 1;
        } else {
            fresh = fresh + 1;
        }
        k = k + 1;
    }
    BankSyncSummary { total_fetched: lines.len() as i64, already_imported: already, new_transactions: fresh }
}

/// Selections agree on a prefix where their conditions agree.
proof fn lemma_indices_same_prefix(n: int, p: spec_fn(int) -> bool, q: spec_fn(int) -> bool)
    requires
        forall|j: int| 0 <= j < n ==> #[trigger] p(j) == q(j),
    ensures
        indices_where(n, p) == indices_where(n, q),
    decreases n,
{
    if n > 0 {
        lemma_indices_same_prefix(n - 1, p, q);
    }
}

/// The balance of a sync report, with two decimals.
pub fn balance_info(balance: &BankBalance) -> (res: BankBalanceInfo)
    ensures
        res.current@ == decimal_text_2dp(balance.current.mantissa as int, balance.current.scale as int),
        match balance.available {
            Some(a) => res.available matches Some(t) && t@ == decimal_text_2dp(a.mantissa as int, a.scale as int),
            None => res.available is None,
        },
        res.currency@ == balance.currency@,
        res.updated_at == balance.updated_at,
{
    BankBalanceInfo {
        current: decimal_to_string_2dp(&balance.current),
        available: match &balance.available {
            Some(a) => Some(decimal_to_string_2dp(a)),
            None => None,
        },
        currency: balance.currency.clone(),
        updated_at: balance.updated_at,
    }
}

/// The title of an imported transaction: the description, prefixed with
/// "<merchant> - " when it does not already mention the merchant.
pub open spec fn import_title_text(description: Seq<char>, merchant: Option<Seq<char>>) -> Seq<char> {
    match merchant {
        Some(m) => if has_substring(description, m) {
            description
        } else {
            m + " - "@ + description
        },
        None => description,
    }
}

/// Whether a title can be cut at 255 bytes: it is no longer, or byte 255
/// starts a character (a debug build panics otherwise).
pub open spec fn title_cut_ok(title: Seq<char>) -> bool {
    let b = vstd::utf8::encode_utf8(title);
    b.len() <= 255 || vstd::utf8::is_char_boundary(b, 255)
}

/// The title of an imported transaction, cut to its first 255 bytes.
pub fn import_title(description: &str, merchant: Option<&str>) -> (res: String)
    requires
        title_cut_ok(import_title_text(description@, opt_view(merchant))),
    ensures
        ({
            let b = vstd::utf8::encode_utf8(import_title_text(description@, opt_view(merchant)));
            vstd::utf8::encode_utf8(res@) == if b.len() > 255 {
                b.subrange(0, 255)
            } else {
                b
            }
        }),
{
    let title = match merchant {
        Some(m) => if contains_str(description, m) {
            owned(description)
        } else {
            let mut t = owned(m);
            push_str(&mut t, " - ");
            push_str(&mut t, description);
            t
        },
        None => owned(description),
    };
    assert(title@ == import_title_text(description@, opt_view(merchant)));
    let s = title.as_str();
    assert(s@ == title@);
    if s.as_bytes().len() > 255 {
        let (head, _) = s.split_at(255);
        let res = owned(head);
        assert(encode_utf8(res@) == encode_utf8(title@).subrange(0, 255));
        res
    } else {
        assert(encode_utf8(title@).len() <= 255);
        title
    }
}

/// The notes of an imported transaction: the merchant, where there is one.
pub fn import_notes(merchant: Option<&str>) -> (res: Option<String>)
    ensures
        match merchant {
            Some(m) => res matches Some(n) && n@ == "Imported from bank - Merchant: "@ + m@,
            None => res is None,
        },
{
    match merchant {
        Some(m) => {
            let mut n = owned("Imported from bank - Merchant: ");
            push_str(&mut n, m);
            Some(n)
        },
        None => None,
    }
}

/// Which lines of a report an import takes: the selected ones that are not
/// already imported (in report order); and how many selected lines were
/// skipped as already imported.
pub fn plan_import(transactions: &Vec<FetchedBankTransaction>, selected_ids: &Vec<String>) -> (res: (Vec<usize>, i64))
    requires
        transactions@.len() <= i64::MAX,
    ensures
        res.0@.map_values(|k: usize| k as int) == indices_where(
            transactions@.len() as int,
            |k: int| id_listed(selected_ids@, transactions@[k].external_id@) && !transactions@[k].already_imported,
        ),
        res.1 == indices_where(
            transactions@.len() as int,
            |k: int| id_listed(selected_ids@, transactions@[k].external_id@) && transactions@[k].already_imported,
        ).len(),
{
    let ghost p = |k: int| id_listed(selected_ids@, transactions@[k].external_id@) && !transactions@[k].already_imported;
    let ghost q = |k: int| id_listed(selected_ids@, transactions@[k].external_id@) && transactions@[k].already_imported;
    let mut take: Vec<usize> = Vec::new();
    let mut skipped: i64 = 0;
    let mut k: usize = 0;
    while k < transactions.len()
        invariant
            k <= transactions@.len(),
            transactions@.len() <= i64::MAX,
            p == (|k: int| id_listed(selected_ids@, transactions@[k].external_id@) && !transactions@[k].already_imported),
            q == (|k: int| id_listed(selected_ids@, transactions@[k].external_id@) && transactions@[k].already_imported),
            take@.map_values(|j: usize| j as int) == indices_where(k as int, p),
            skipped == indices_where(k as int, q).len(),
            skipped <= k,
        decreases transactions@.len() - k,
    {
        let t = &transactions[k];
        if contains_id(selected_ids, t.external_id.as_str()) {
            if t.already_imported {
                skipped = skipped + 1;
            } else {
                take.push(k);
                assert(take@.map_values(|j: usize| j as int) =~= indices_where(k + 1, p));
            }
        }
        k = k + 1;
    }
    (take, skipped)
}

/// The message when the bank consent has run out.
pub open spec fn consent_expired_message() -> Seq<char> {
    "Bank consent has expired. Please reconnect your bank account."@
}

/// What to do about the access token.
#[derive(Debug, Clone)]
pub enum TokenPlan {
    /// The token is valid: use it.
    Use(String),
    /// The token has expired or expires within five minutes: refresh it
    /// with this refresh token.
    Refresh { access_token: String, refresh_token: String },
    /// The token has expired and cannot be refreshed: deactivate the
    /// connection and ask the user to reconnect.
    Reconnect,
}

/// Whether a token expiring at `expires_at` must be refreshed at `now`: it
/// expires within five minutes.
pub open spec fn must_refresh(expires_at: Option<Timestamp>, now: Timestamp) -> bool {
    match expires_at {
        Some(e) => is_before(e, Timestamp { seconds: (now.seconds + 300) as i64, nanos: now.nanos }),
        None => false,
    }
}

/// Decides about the access token of decrypted credentials at `now`:
/// `access_token` is required; a token with `token_expires_at` (RFC 3339)
/// within five minutes is refreshed with `refresh_token`, or, without one,
/// the user must reconnect.
pub fn plan_access_token(credentials: &JsonValue, now: Timestamp) -> (res: Result<TokenPlan, ApiError>)
    requires
        now.seconds + 300 <= i64::MAX,
    ensures
        match field_str(*credentials, "access_token"@) {
            None => res matches Err(e) && api_error_view(e) == ApiErrorView::InternalWithMessage(
                "Missing access_token in credentials"@,
            ),
            Some(token) => {
                let expires = match field_str(*credentials, "token_expires_at"@) {
                    Some(s) => crate::time::parsed_rfc3339(s),
                    None => None,
                };
                if !must_refresh(expires, now) {
                    res matches Ok(TokenPlan::Use(t)) && t@ == token
                } else {
                    match field_str(*credentials, "refresh_token"@) {
                        Some(r) => res matches Ok(TokenPlan::Refresh { access_token, refresh_token }) && access_token@
                            == token && refresh_token@ == r,
                        None => res matches Ok(TokenPlan::Reconnect),
                    }
                }
            },
        },
{
    let token = match crate::json::str_field(credentials, "access_token") {
        Some(t) => owned(t),
        None => {
            return Err(ApiError::InternalWithMessage(owned("Missing access_token in credentials")));
        },
    };
    let expires = match crate::json::str_field(credentials, "token_expires_at") {
        Some(s) => crate::time::parse_rfc3339(s),
        None => None,
    };
    let limit = Timestamp { seconds: now.seconds + 300, nanos: now.nanos };
    let needs_refresh = match expires {
        Some(e) => e.is_before(&limit),
        None => false,
    };
    if !needs_refresh {
        return Ok(TokenPlan::Use(token));
    }
    match crate::json::str_field(credentials, "refresh_token") {
        Some(r) => Ok(TokenPlan::Refresh { access_token: token, refresh_token: owned(r) }),
        None => Ok(TokenPlan::Reconnect),
    }
}

/// The error when a token refresh fails: an expired refresh token means the
/// consent has run out; anything else is reported with its message.
pub fn refresh_failure(token_expired: bool, error_message: &str) -> (res: ApiError)
    ensures
        token_expired ==> api_error_view(res) == ApiErrorView::BadRequest(consent_expired_message()),
        !token_expired ==> api_error_view(res) == ApiErrorView::InternalWithMessage(
            "Failed to refresh access token: "@ + error_message@,
        ),
{
    if token_expired {
        ApiError::BadRequest(owned("Bank consent has expired. Please reconnect your bank account."))
    } else {
        let mut m = owned("Failed to refresh access token: ");
        push_str(&mut m, error_message);
        ApiError::InternalWithMessage(m)
    }
}

/// The access token of a bank connection: its credentials are a sealed
/// JSON string holding `access_token` (`setting` is the credentials key).
pub fn decrypt_access_token(record: &BankProviderRecord, setting: Option<&str>) -> (res: Result<String, ApiError>)
    ensures
        match json_str(record.credentials) {
            None => res matches Err(e) && api_error_view(e) == ApiErrorView::InternalWithMessage(
                "Invalid credentials format"@,
            ),
            Some(encrypted) => match opened_text(opt_view(setting), encrypted) {
                Err(_) => res matches Err(e) && api_error_view(e) == ApiErrorView::InternalWithMessage(
                    "Failed to decrypt credentials"@,
                ),
                Ok(bytes) => match crate::utils::encryption::parsed_json(bytes) {
                    Err(_) => res matches Err(e) && api_error_view(e) == ApiErrorView::InternalWithMessage(
                        "Failed to decrypt credentials"@,
                    ),
                    Ok(j) => match access_token_in(j) {
                        Some(t) => res matches Ok(s) && s@ == t,
                        None => res matches Err(e) && api_error_view(e) == ApiErrorView::InternalWithMessage(
                            "Missing access_token in credentials"@,
                        ),
                    },
                },
            },
        },
{
    let encrypted = match record.credentials.as_str() {
        Some(s) => s,
        None => {
            return Err(ApiError::InternalWithMessage(owned("Invalid credentials format")));
        },
    };
    let creds = match decrypt_credentials(setting, encrypted) {
        Ok(c) => c,
        Err(_) => {
            return Err(ApiError::InternalWithMessage(owned("Failed to decrypt credentials")));
        },
    };
    match crate::json::str_field(&creds, "access_token") {
        Some(t) => {
            proof {
                lemma_access_token_view(creds);
            }
            Ok(owned(t))
        },
        None => {
            proof {
                lemma_access_token_view(creds);
            }
            Err(ApiError::InternalWithMessage(owned("Missing access_token in credentials")))
        },
    }
}

/// The text of member `access_token` of a JSON view.
pub open spec fn access_token_in(j: crate::json::JsonView) -> Option<Seq<char>> {
    match j {
        crate::json::JsonView::Object(m) => match view_lookup(m, "access_token"@, m.len() as int) {
            Some(crate::json::JsonView::String(s)) => Some(s),
            _ => None,
        },
        _ => None,
    }
}

/// The first of the first `n` members named `key` of a view's object.
pub open spec fn view_lookup(m: Seq<(Seq<char>, crate::json::JsonView)>, key: Seq<char>, n: int) -> Option<crate::json::JsonView>
    decreases n,
{
    if n <= 0 {
        None
    } else {
        match view_lookup(m, key, n - 1) {
            Some(v) => Some(v),
            None => if m[n - 1].0 == key {
                Some(m[n - 1].1)
            } else {
                None
            },
        }
    }
}

proof fn lemma_access_token_view(v: JsonValue)
    ensures
        access_token_in(json_view(v)) == field_str(v, "access_token"@),
{
    match v {
        JsonValue::Object(m) => {
            let key = "access_token"@;
            let vm = match json_view(v) {
                crate::json::JsonView::Object(x) => x,
                _ => Seq::empty(),
            };
            assert(vm.len() == m@.len());
            assert forall|i: int| 0 <= i < m@.len() implies #[trigger] vm[i] == (m@[i].key@, json_view(m@[i].value)) by {}
            lemma_lookup_view(m@, vm, key, m@.len() as int);
            match crate::json::entry_lookup(m@, key, m@.len() as int) {
                Some(x) => {
                    assert(view_lookup(vm, key, vm.len() as int) == Some(json_view(x)));
                    match x {
                        JsonValue::String(s) => {
                            assert(json_view(x) == crate::json::JsonView::String(s@));
                        },
                        JsonValue::Number(JsonNumber::Int(i)) => {},
                        JsonValue::Number(JsonNumber::UInt(i)) => {},
                        JsonValue::Number(JsonNumber::Real(i)) => {},
                        _ => {},
                    }
                },
                None => {},
            }
        },
        _ => {},
    }
}

proof fn lemma_lookup_view(m: Seq<JsonMember>, vm: Seq<(Seq<char>, crate::json::JsonView)>, key: Seq<char>, n: int)
    requires
        0 <= n <= m.len(),
        vm.len() == m.len(),
        forall|i: int| 0 <= i < m.len() ==> #[trigger] vm[i] == (m[i].key@, json_view(m[i].value)),
    ensures
        view_lookup(vm, key, n) is Some <==> crate::json::entry_lookup(m, key, n) is Some,
        crate::json::entry_lookup(m, key, n) matches Some(x) ==> view_lookup(vm, key, n) == Some(json_view(x)),
    decreases n,
{
    if n > 0 {
        lemma_lookup_view(m, vm, key, n - 1);
        assert(vm[n - 1] == (m[n - 1].key@, json_view(m[n - 1].value)));
    }
}

/// The credentials stored after a refresh: the new access token, the new
/// refresh token (or the one used), and the new expiry as RFC 3339 text
/// (null where there is none). `None` where the expiry lies outside the
/// calendar.
pub fn refreshed_credentials(access_token: &str, refresh_token: &str, expires_at: Option<Timestamp>) -> (res: Option<JsonValue>)
    ensures
        match expires_at {
            Some(t) => match rfc3339_text(t) {
                Some(x) => res matches Some(c) && field_str(c, "access_token"@) == Some(access_token@) && field_str(
                    c,
                    "refresh_token"@,
                ) == Some(refresh_token@) && field_str(c, "token_expires_at"@) == Some(x),
                None => res is None,
            },
            None => res matches Some(c) && field_str(c, "access_token"@) == Some(access_token@) && field_str(
                c,
                "refresh_token"@,
            ) == Some(refresh_token@) && crate::json::json_get(c, "token_expires_at"@) == Some(JsonValue::Null),
        },
{
    let expires_text = match expires_at {
        Some(t) => match format_rfc3339(t) {
            Some(x) => Some(x),
            None => {
                return None;
            },
        },
        None => None,
    };
    let mut m: Vec<JsonMember> = Vec::new();
    m.push(JsonMember { key: owned("access_token"), value: JsonValue::String(owned(access_token)) });
    m.push(JsonMember { key: owned("refresh_token"), value: JsonValue::String(owned(refresh_token)) });
    m.push(
        JsonMember {
            key: owned("token_expires_at"),
            value: match expires_text {
                Some(t) => JsonValue::String(t),
                None => JsonValue::Null,
            },
        },
    );
    let res = JsonValue::Object(m);
    proof {
        reveal_strlit("access_token");
        reveal_strlit("refresh_token");
        reveal_strlit("token_expires_at");
        let mm = m@;
        assert(mm[0].key@ != "refresh_token"@) by { assert(mm[0].key@[0] != "refresh_token"@[0]); }
        assert(mm[0].key@ != "token_expires_at"@) by { assert(mm[0].key@[0] != "token_expires_at"@[0]); }
        assert(mm[1].key@ != "token_expires_at"@) by { assert(mm[1].key@[0] != "token_expires_at"@[0]); }
        assert(crate::json::entry_lookup(mm, "access_token"@, 0) is None);
        assert(crate::json::entry_lookup(mm, "refresh_token"@, 0) is None);
        assert(crate::json::entry_lookup(mm, "token_expires_at"@, 0) is None);
        assert(crate::json::entry_lookup(mm, "access_token"@, 1) == Some(mm[0].value));
        assert(crate::json::entry_lookup(mm, "access_token"@, 2) == Some(mm[0].value));
        assert(crate::json::entry_lookup(mm, "refresh_token"@, 1) is None);
        assert(crate::json::entry_lookup(mm, "refresh_token"@, 2) == Some(mm[1].value));
        assert(crate::json::entry_lookup(mm, "token_expires_at"@, 1) is None);
        assert(crate::json::entry_lookup(mm, "token_expires_at"@, 2) is None);
    }
    Some(res)
}

/// How long to wait before trying a failed provider call again: for a
/// transient failure of attempt `attempt` (counted from 0) that is not the
/// last, 500 ms doubled per attempt; otherwise give up.
pub fn retry_delay_ms(attempt: u32, retryable: bool) -> (res: Option<u64>)
    requires
        attempt < MAX_RETRIES,
    ensures
        retryable && attempt + 1 < MAX_RETRIES ==> res == Some((500 * vstd::arithmetic::power2::pow2(attempt as nat)) as u64),
        !(retryable && attempt + 1 < MAX_RETRIES) ==> res is None,
{
    if retryable && attempt + 1 < MAX_RETRIES {
        proof {
            vstd::arithmetic::power2::lemma2_to64();
        }
        let factor: u64 = if attempt == 0 {
            1
        } else {
            2
        };
        Some(500 * factor)
    } else {
        None
    }
}

/// The period a sync fetches: from the given start, else
/// `DEFAULT_LOOKBACK_DAYS` days before `now`, to the given end, else `now`.
pub fn sync_window(from: Option<Timestamp>, to: Option<Timestamp>, now: Timestamp) -> (res: (Timestamp, Timestamp))
    requires
        now.seconds >= i64::MIN + DEFAULT_LOOKBACK_DAYS * 86400,
    ensures
        res.0 == match from {
            Some(f) => f,
            None => Timestamp { seconds: (now.seconds - DEFAULT_LOOKBACK_DAYS * 86400) as i64, nanos: now.nanos },
        },
        res.1 == match to {
            Some(t) => t,
            None => now,
        },
{
    let start = match from {
        Some(f) => f,
        None => Timestamp { seconds: now.seconds - DEFAULT_LOOKBACK_DAYS * 86400, nanos: now.nanos },
    };
    let end = match to {
        Some(t) => t,
        None => now,
    };
    (start, end)
}

/// The bank account a connection syncs: the one linked to it, which must
/// exist.
pub fn linked_account(external_account_id: &Option<String>, message: &str) -> (res: Result<String, ApiError>)
    ensures
        match external_account_id {
            Some(a) => res matches Ok(s) && s@ == a@,
            None => res matches Err(e) && api_error_view(e) == ApiErrorView::BadRequest(message@),
        },
{
    match external_account_id {
        Some(a) => Ok(a.clone()),
        None => Err(ApiError::BadRequest(owned(message))),
    }
}

} // verus!
