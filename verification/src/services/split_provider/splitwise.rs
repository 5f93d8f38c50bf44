//! Splitwise: credentials, request parameters, error mapping and the
//! reading of Splitwise's answers.
use vstd::prelude::*;
use crate::json::{copy_json, entry_lookup, field_i64, field_str, field_str_or, json_array, json_get, json_view, str_field, str_field_or, JsonMember, JsonValue};
use crate::time::{format_rfc3339, rfc3339_text};
use crate::models::{is_before, Reply, Timestamp};
use crate::utils::encryption::{parse_json, parsed_json};
use crate::selection::indices_where;
use crate::services::split_provider::types::{
    split_error_view, CreateExternalExpense, ExpenseUser, ExternalExpenseDetail,
    ExternalExpenseResult, ExternalExpenseUser, SplitErrorView, SplitProviderError,
    UpdateExternalExpense,
};
use crate::text::{i64_text, int_text, nat_digits, owned, push_str, push_u64_digits};
use crate::time::{format_utc, formatted_utc, now, parse_rfc3339, parsed_rfc3339};

verus! {

/// The Splitwise provider. Its HTTP calls are made by the application; the
/// library holds what they are built from and how their answers are read.
pub struct SplitwiseProvider;

/// The `errors` member of a Splitwise answer, as parsed and as its JSON text.
#[derive(Debug)]
pub struct SplitwiseErrors {
    pub value: JsonValue,
    pub text: String,
}

/// Answer to creating or updating an expense.
#[derive(Debug)]
pub struct SplitwiseExpenseResponse {
    pub expenses: Option<Vec<SplitwiseExpense>>,
    pub errors: Option<SplitwiseErrors>,
}

/// An expense as Splitwise lists it.
#[derive(Debug, Clone)]
pub struct SplitwiseExpense {
    pub id: i64,
    pub description: Option<String>,
    pub cost: Option<String>,
    pub currency_code: Option<String>,
    pub date: Option<String>,
    pub deleted_at: Option<String>,
    pub users: Option<Vec<SplitwiseExpenseUser>>,
}

#[derive(Debug, Clone)]
pub struct SplitwiseExpenseUser {
    pub user: SplitwiseUserInfo,
    pub paid_share: Option<String>,
    pub owed_share: Option<String>,
}

#[derive(Debug, Clone)]
pub struct SplitwiseUserInfo {
    pub id: i64,
    pub first_name: Option<String>,
    pub last_name: Option<String>,
}

/// Answer to `GET /get_expenses`.
#[derive(Debug, Clone)]
pub struct SplitwiseGetExpensesResponse {
    pub expenses: Option<Vec<SplitwiseExpense>>,
}

/// Answer to deleting an expense.
#[derive(Debug, Clone, Copy)]
pub struct SplitwiseDeleteResponse {
    pub success: bool,
}

/// Answer to refreshing an OAuth token.
#[derive(Debug, Clone)]
pub struct SplitwiseTokenResponse {
    pub access_token: String,
    pub refresh_token: Option<String>,
    pub expires_in: i64,
}

pub open spec fn text_or(o: Option<String>, default: Seq<char>) -> Seq<char> {
    match o {
        Some(s) => s@,
        None => default,
    }
}

/// Whether an `errors` value reports an error: a non-empty object or
/// array, or anything but `null`.
pub open spec fn reports_errors(v: JsonValue) -> bool {
    match v {
        JsonValue::Object(m) => m@.len() > 0,
        JsonValue::Array(a) => a@.len() > 0,
        JsonValue::Null => false,
        _ => true,
    }
}

/// The page of an expense on Splitwise.
pub open spec fn expense_url(id: Seq<char>) -> Seq<char> {
    "https://secure.splitwise.com/expenses/"@ + id
}

/// The user `u` of a Splitwise listing, read.
pub open spec fn listed_user_read(x: ExternalExpenseUser, u: SplitwiseExpenseUser) -> bool {
    &&& x.external_user_id@ == int_text(u.user.id as int)
    &&& x.first_name@ == text_or(u.user.first_name, ""@)
    &&& x.last_name@ == text_or(u.user.last_name, ""@)
    &&& x.paid_share@ == text_or(u.paid_share, "0.00"@)
    &&& x.owed_share@ == text_or(u.owed_share, "0.00"@)
}

/// The expense `e` of a Splitwise listing, read.
pub open spec fn listed_expense_read(d: ExternalExpenseDetail, e: SplitwiseExpense) -> bool {
    let users = match e.users {
        Some(u) => u@,
        None => Seq::empty(),
    };
    &&& d.external_expense_id@ == int_text(e.id as int)
    &&& d.description@ == text_or(e.description, ""@)
    &&& d.cost@ == text_or(e.cost, "0.00"@)
    &&& d.currency_code@ == text_or(e.currency_code, "USD"@)
    &&& d.date@ == text_or(e.date, ""@)
    &&& d.provider_type@ == "splitwise"@
    &&& d.users@.len() == users.len()
    &&& forall|k: int| 0 <= k < users.len() ==> listed_user_read(#[trigger] d.users@[k], users[k])
}

/// The three form parameters of user `i`.
pub open spec fn user_params_match(params: Seq<(String, String)>, users: Seq<ExpenseUser>) -> bool {
    &&& params.len() == 3 * users.len()
    &&& forall|i: int| 0 <= i < users.len() ==> {
        let prefix = "users__"@ + nat_digits(i as nat);
        &&& (#[trigger] params[3 * i]).0@ == prefix + "__user_id"@
        &&& params[3 * i].1@ == users[i].external_user_id@
        &&& params[3 * i + 1].0@ == prefix + "__paid_share"@
        &&& params[3 * i + 1].1@ == users[i].paid_share@
        &&& params[3 * i + 2].0@ == prefix + "__owed_share"@
        &&& params[3 * i + 2].1@ == users[i].owed_share@
    }
}

/// A form parameter.
fn param(name: String, value: String) -> (res: (String, String))
    ensures
        res.0@ == name@,
        res.1@ == value@,
{
    (name, value)
}

/// `users__<i>__<field>`.
fn user_param_name(i: usize, field: &str) -> (res: String)
    ensures
        res@ == "users__"@ + nat_digits(i as nat) + field@,
{
    let mut s = owned("users__");
    push_u64_digits(&mut s, i as u64);
    push_str(&mut s, field);
    s
}

/// The instant `token_expires_at` reads as (RFC 3339), where it does.
pub open spec fn expiry_of(credentials: JsonValue) -> Option<Timestamp> {
    match field_str(credentials, "token_expires_at"@) {
        Some(s) => parsed_rfc3339(s),
        None => None,
    }
}

/// Whether credentials have expired at `now`: their expiry reads as an
/// instant no later than `now`.
pub open spec fn token_expired_at(credentials: JsonValue, now: Timestamp) -> bool {
    match expiry_of(credentials) {
        Some(expires) => !is_before(now, expires),
        None => false,
    }
}

/// The error for a failed HTTP call (see `map_status_error`).
pub open spec fn status_error(status: u16, status_text: Seq<char>, body: Seq<char>) -> SplitErrorView {
    if status == 401 {
        SplitErrorView::AuthenticationFailed(body)
    } else if status == 404 {
        SplitErrorView::NotFound(body)
    } else if status == 429 {
        SplitErrorView::RateLimited(None)
    } else {
        SplitErrorView::ApiError("HTTP "@ + status_text + ": "@ + body)
    }
}

impl SplitwiseProvider {
    /// `credentials["access_token"]`.
    pub fn get_access_token(credentials: &JsonValue) -> (res: Result<String, SplitProviderError>)
        ensures
            match res {
                Ok(s) => field_str(*credentials, "access_token"@) == Some(s@),
                Err(e) => field_str(*credentials, "access_token"@) is None && split_error_view(e)
                    == SplitErrorView::ConfigurationError("Missing access_token in credentials"@),
            },
    {
        match str_field(credentials, "access_token") {
            Some(s) => Ok(owned(s)),
            None => Err(SplitProviderError::ConfigurationError(owned("Missing access_token in credentials"))),
        }
    }

    /// `credentials["refresh_token"]`.
    pub fn get_refresh_token(credentials: &JsonValue) -> (res: Result<String, SplitProviderError>)
        ensures
            match res {
                Ok(s) => field_str(*credentials, "refresh_token"@) == Some(s@),
                Err(e) => field_str(*credentials, "refresh_token"@) is None && split_error_view(e)
                    == SplitErrorView::ConfigurationError("Missing refresh_token in credentials"@),
            },
    {
        match str_field(credentials, "refresh_token") {
            Some(s) => Ok(owned(s)),
            None => Err(SplitProviderError::ConfigurationError(owned("Missing refresh_token in credentials"))),
        }
    }

    /// Whether the token has expired at `now`: `token_expires_at` is an
    /// RFC 3339 instant no later than `now`. A missing or unreadable expiry
    /// counts as not expired.
    pub fn is_token_expired_at(credentials: &JsonValue, now: Timestamp) -> (res: bool)
        ensures
            res == token_expired_at(*credentials, now),
    {
        match str_field(credentials, "token_expires_at") {
            Some(s) => match parse_rfc3339(s) {
                Some(expires) => !now.is_before(&expires),
                None => false,
            },
            None => false,
        }
    }

    /// Whether the token has expired now: `token_expired_at` at the instant
    /// the clock gave. That instant is not named, so where the expiry reads
    /// as an instant either answer may come; a missing or unreadable expiry
    /// is never expired.
    pub fn is_token_expired(credentials: &JsonValue) -> (res: bool)
        ensures
            exists|t: Timestamp| res == #[trigger] token_expired_at(*credentials, t),
            res ==> expiry_of(*credentials) is Some,
    {
        let t = now();
        let r = Self::is_token_expired_at(credentials, t);
        assert(r == token_expired_at(*credentials, t));
        r
    }

    /// The flattened users of Splitwise's form API:
    /// `users__<i>__user_id`, `users__<i>__paid_share`, `users__<i>__owed_share`.
    pub fn build_users_params(users: &[ExpenseUser]) -> (res: Vec<(String, String)>)
        requires
            users@.len() * 3 <= usize::MAX,
        ensures
            user_params_match(res@, users@),
    {
        let mut params: Vec<(String, String)> = Vec::new();
        let mut i: usize = 0;
        while i < users.len()
            invariant
                i <= users@.len(),
                users@.len() * 3 <= usize::MAX,
                user_params_match(params@, users@.take(i as int)),
            decreases users@.len() - i,
        {
            let u = &users[i];
            params.push(param(user_param_name(i, "__user_id"), u.external_user_id.clone()));
            params.push(param(user_param_name(i, "__paid_share"), u.paid_share.clone()));
            params.push(param(user_param_name(i, "__owed_share"), u.owed_share.clone()));
            proof {
                let t = users@.take(i + 1);
                assert forall|j: int| 0 <= j < t.len() implies {
                    let prefix = "users__"@ + nat_digits(j as nat);
                    &&& (#[trigger] params@[3 * j]).0@ == prefix + "__user_id"@
                    &&& params@[3 * j].1@ == t[j].external_user_id@
                    &&& params@[3 * j + 1].0@ == prefix + "__paid_share"@
                    &&& params@[3 * j + 1].1@ == t[j].paid_share@
                    &&& params@[3 * j + 2].0@ == prefix + "__owed_share"@
                    &&& params@[3 * j + 2].1@ == t[j].owed_share@
                } by {
                    if j < i {
                        assert(users@.take(i as int)[j] == t[j]);
                    }
                }
            }
            i = i + 1;
        }
        assert(users@.take(users@.len() as int) == users@);
        params
    }

    /// The error for a failed HTTP call: 401 → authentication failed,
    /// 404 → not found, 429 → rate limited, otherwise
    /// "HTTP <status>: <body>" (`status_text` is the status as displayed).
    pub fn map_status_error(status: u16, status_text: &str, body: &str) -> (res: SplitProviderError)
        ensures
            split_error_view(res) == status_error(status, status_text@, body@),
    {
        if status == 401 {
            SplitProviderError::AuthenticationFailed(owned(body))
        } else if status == 404 {
            SplitProviderError::NotFound(owned(body))
        } else if status == 429 {
            SplitProviderError::RateLimited(None)
        } else {
            let mut m = owned("HTTP ");
            push_str(&mut m, status_text);
            push_str(&mut m, ": ");
            push_str(&mut m, body);
            SplitProviderError::ApiError(m)
        }
    }
}

/// Whether a user entry of a single-expense answer is read (it has a
/// `user` member).
pub open spec fn has_user(u: JsonValue) -> bool {
    json_get(u, "user"@) is Some
}

/// The user entry `u` of a single-expense answer, read.
pub open spec fn json_user_read(x: ExternalExpenseUser, u: JsonValue) -> bool {
    let user = json_get(u, "user"@).unwrap();
    &&& x.external_user_id@ == match field_i64(user, "id"@) {
        Some(id) => int_text(id as int),
        None => ""@,
    }
    &&& x.first_name@ == field_str_or(user, "first_name"@, ""@)
    &&& x.last_name@ == field_str_or(user, "last_name"@, ""@)
    &&& x.paid_share@ == field_str_or(u, "paid_share"@, "0.00"@)
    &&& x.owed_share@ == field_str_or(u, "owed_share"@, "0.00"@)
}

/// The user entries of an expense object.
pub open spec fn json_users(ev: JsonValue) -> Seq<JsonValue> {
    match json_get(ev, "users"@) {
        Some(v) => match json_array(v) {
            Some(a) => a,
            None => Seq::empty(),
        },
        None => Seq::empty(),
    }
}

/// The expense object `ev` of a single-expense answer, read.
pub open spec fn json_expense_read(d: ExternalExpenseDetail, ev: JsonValue) -> bool {
    let users = json_users(ev);
    let kept = indices_where(users.len() as int, |k: int| has_user(users[k]));
    &&& d.external_expense_id@ == int_text(
        match field_i64(ev, "id"@) {
            Some(id) => id as int,
            None => 0,
        },
    )
    &&& d.description@ == field_str_or(ev, "description"@, ""@)
    &&& d.cost@ == field_str_or(ev, "cost"@, "0.00"@)
    &&& d.currency_code@ == field_str_or(ev, "currency_code"@, "USD"@)
    &&& d.date@ == field_str_or(ev, "date"@, ""@)
    &&& d.provider_type@ == "splitwise"@
    &&& d.users@.len() == kept.len()
    &&& forall|k: int| 0 <= k < kept.len() ==> json_user_read(#[trigger] d.users@[k], users[kept[k]])
}

/// What reading a single-expense answer gives: an invalid-response error
/// where it has no `expense`, nothing where the expense is deleted, else the
/// expense read.
pub open spec fn expense_answer_read(json: JsonValue, res: Result<Option<ExternalExpenseDetail>, SplitProviderError>) -> bool {
    match json_get(json, "expense"@) {
        None => match res {
            Err(e) => split_error_view(e) == SplitErrorView::InvalidResponse("Missing 'expense' field"@),
            Ok(_) => false,
        },
        Some(ev) => if field_str(ev, "deleted_at"@) is Some {
            res matches Ok(None)
        } else {
            match res {
                Ok(Some(d)) => json_expense_read(d, ev),
                _ => false,
            }
        },
    }
}

fn read_json_user(u: &JsonValue) -> (res: ExternalExpenseUser)
    requires
        has_user(*u),
    ensures
        json_user_read(res, *u),
{
    let user = match u.get("user") {
        Some(x) => x,
        None => {
            assert(false);
            u
        },
    };
    let id = match crate::json::i64_field(user, "id") {
        Some(i) => i64_text(i),
        None => owned(""),
    };
    ExternalExpenseUser {
        external_user_id: id,
        first_name: str_field_or(user, "first_name", ""),
        last_name: str_field_or(user, "last_name", ""),
        paid_share: str_field_or(u, "paid_share", "0.00"),
        owed_share: str_field_or(u, "owed_share", "0.00"),
    }
}

fn read_listed_user(u: &SplitwiseExpenseUser) -> (res: ExternalExpenseUser)
    ensures
        listed_user_read(res, *u),
{
    ExternalExpenseUser {
        external_user_id: i64_text(u.user.id),
        first_name: text_or_default(&u.user.first_name, ""),
        last_name: text_or_default(&u.user.last_name, ""),
        paid_share: text_or_default(&u.paid_share, "0.00"),
        owed_share: text_or_default(&u.owed_share, "0.00"),
    }
}

/// The text of `o`, or `default`.
fn text_or_default(o: &Option<String>, default: &str) -> (res: String)
    ensures
        res@ == text_or(*o, default@),
{
    match o {
        Some(s) => s.clone(),
        None => owned(default),
    }
}

fn read_listed_expense(e: &SplitwiseExpense) -> (res: ExternalExpenseDetail)
    ensures
        listed_expense_read(res, *e),
{
    let mut users: Vec<ExternalExpenseUser> = Vec::new();
    match &e.users {
        Some(list) => {
            let mut k: usize = 0;
            while k < list.len()
                invariant
                    k <= list@.len(),
                    users@.len() == k,
                    forall|j: int| 0 <= j < k ==> listed_user_read(#[trigger] users@[j], list@[j]),
                decreases list@.len() - k,
            {
                users.push(read_listed_user(&list[k]));
                k = k + 1;
            }
        },
        None => {},
    }
    ExternalExpenseDetail {
        external_expense_id: i64_text(e.id),
        description: text_or_default(&e.description, ""),
        cost: text_or_default(&e.cost, "0.00"),
        currency_code: text_or_default(&e.currency_code, "USD"),
        date: text_or_default(&e.date, ""),
        users,
        provider_type: owned("splitwise"),
    }
}

/// The Splitwise-errors error of an answer, if it reports errors.
fn errors_of(errors: &Option<SplitwiseErrors>) -> (res: Option<SplitProviderError>)
    ensures
        match errors {
            Some(e) => if reports_errors(e.value) {
                res matches Some(r) && split_error_view(r) == SplitErrorView::ApiError("Splitwise errors: "@ + e.text@)
            } else {
                res is None
            },
            None => res is None,
        },
{
    match errors {
        Some(e) => {
            let has = match &e.value {
                JsonValue::Object(m) => m.len() > 0,
                JsonValue::Array(a) => a.len() > 0,
                JsonValue::Null => false,
                _ => true,
            };
            if has {
                let mut m = owned("Splitwise errors: ");
                push_str(&mut m, e.text.as_str());
                Some(SplitProviderError::ApiError(m))
            } else {
                None
            }
        },
        None => None,
    }
}

/// The ID and page of an expense.
fn expense_result(id: String) -> (res: ExternalExpenseResult)
    ensures
        res.external_expense_id@ == id@,
        res.external_url matches Some(u) && u@ == expense_url(id@),
{
    let mut url = owned("https://secure.splitwise.com/expenses/");
    push_str(&mut url, id.as_str());
    ExternalExpenseResult { external_expense_id: id, external_url: Some(url) }
}

impl SplitwiseProvider {
    /// Reads the answer to creating an expense: its errors, when it reports
    /// any, or the last expense it lists, with its page.
    pub fn create_result(response: SplitwiseExpenseResponse) -> (res: Result<ExternalExpenseResult, SplitProviderError>)
        ensures
            match response.errors {
                Some(e) if reports_errors(e.value) => res matches Err(r) && split_error_view(r)
                    == SplitErrorView::ApiError("Splitwise errors: "@ + e.text@),
                _ => match response.expenses {
                    Some(list) if list@.len() > 0 => res matches Ok(r) && r.external_expense_id@ == int_text(
                        list@.last().id as int,
                    ) && (r.external_url matches Some(u) && u@ == expense_url(int_text(list@.last().id as int))),
                    _ => res matches Err(r) && split_error_view(r) == SplitErrorView::InvalidResponse(
                        "No expense in response"@,
                    ),
                },
            },
    {
        match errors_of(&response.errors) {
            Some(e) => {
                return Err(e);
            },
            None => {},
        }
        match response.expenses {
            Some(mut list) => match list.pop() {
                Some(expense) => Ok(expense_result(i64_text(expense.id))),
                None => Err(SplitProviderError::InvalidResponse(owned("No expense in response"))),
            },
            None => Err(SplitProviderError::InvalidResponse(owned("No expense in response"))),
        }
    }
}

/// The expenses of a listing that are not deleted, in order.
pub open spec fn live_expenses(expenses: Seq<SplitwiseExpense>) -> Seq<int> {
    indices_where(expenses.len() as int, |k: int| expenses[k].deleted_at is None)
}

/// Form parameters as pairs of texts.
pub open spec fn params_view(params: Seq<(String, String)>) -> Seq<(Seq<char>, Seq<char>)> {
    params.map_values(|p: (String, String)| (p.0@, p.1@))
}

pub open spec fn optional_field(name: Seq<char>, v: Option<String>) -> Seq<(Seq<char>, Seq<char>)> {
    match v {
        Some(x) => seq![(name, x@)],
        None => Seq::empty(),
    }
}

/// The fields of a new expense before its users: cost, description,
/// currency code and date, then the group and the notes (`details`) where
/// given.
pub open spec fn create_fields(r: CreateExternalExpense, date: Seq<char>) -> Seq<(Seq<char>, Seq<char>)> {
    seq![("cost"@, r.cost@), ("description"@, r.description@), ("currency_code"@, r.currency_code@), ("date"@, date)]
        + match r.group_id {
        Some(g) => seq![("group_id"@, int_text(g as int))],
        None => Seq::empty(),
    } + optional_field("details"@, r.notes)
}

/// The fields of an update before its users: description, cost, date and
/// notes (`details`), each where given.
pub open spec fn update_fields(r: UpdateExternalExpense, date: Seq<char>) -> Seq<(Seq<char>, Seq<char>)> {
    optional_field("description"@, r.description) + optional_field("cost"@, r.cost) + match r.date {
        Some(_) => seq![("date"@, date)],
        None => Seq::empty(),
    } + optional_field("details"@, r.notes)
}

/// `params` are `fields` followed by the flattened `users`.
pub open spec fn form_matches(
    params: Seq<(String, String)>,
    fields: Seq<(Seq<char>, Seq<char>)>,
    users: Seq<ExpenseUser>,
) -> bool {
    &&& params.len() >= fields.len()
    &&& params_view(params.take(fields.len() as int)) == fields
    &&& user_params_match(params.skip(fields.len() as int), users)
}

/// Appends the field `(name, value)`.
fn push_field(params: &mut Vec<(String, String)>, name: &str, value: String)
    ensures
        params_view(final(params)@) == params_view(old(params)@).push((name@, value@)),
{
    params.push((owned(name), value));
    assert(params_view(params@) =~= params_view(old(params)@).push((name@, value@)));
}

/// Appends the flattened users to the fields already in `params`.
fn append_users(params: &mut Vec<(String, String)>, users: &[ExpenseUser])
    requires
        users@.len() * 3 <= usize::MAX,
    ensures
        form_matches(final(params)@, params_view(old(params)@), users@),
{
    let ghost before = params@;
    let mut list = SplitwiseProvider::build_users_params(users);
    let ghost added = list@;
    params.append(&mut list);
    assert(params@.take(before.len() as int) =~= before);
    assert(params@.skip(before.len() as int) =~= added);
}

impl SplitwiseProvider {
    /// The form of a new expense (`create_fields`, then the users); `None`
    /// where the date lies outside chrono's range.
    pub fn create_expense_params(request: &CreateExternalExpense) -> (res: Option<Vec<(String, String)>>)
        requires
            request.users@.len() * 3 <= usize::MAX,
        ensures
            match formatted_utc(request.date, "%Y-%m-%dT%H:%M:%S"@) {
                Some(d) => res matches Some(p) && form_matches(p@, create_fields(*request, d), request.users@),
                None => res is None,
            },
    {
        let date = match format_utc(request.date, "%Y-%m-%dT%H:%M:%S") {
            Some(d) => d,
            None => {
                return None;
            },
        };
        let ghost d = date@;
        let mut params: Vec<(String, String)> = Vec::new();
        assert(params_view(params@) =~= Seq::empty());
        push_field(&mut params, "cost", request.cost.clone());
        push_field(&mut params, "description", request.description.clone());
        push_field(&mut params, "currency_code", request.currency_code.clone());
        push_field(&mut params, "date", date);
        match request.group_id {
            Some(g) => {
                push_field(&mut params, "group_id", i64_text(g));
            },
            None => {},
        }
        match &request.notes {
            Some(n) => {
                push_field(&mut params, "details", n.clone());
            },
            None => {},
        }
        assert(params_view(params@) =~= create_fields(*request, d));
        append_users(&mut params, request.users.as_slice());
        Some(params)
    }

    /// The form of an update (`update_fields`, then the users where given);
    /// `None` where a given date lies outside chrono's range.
    pub fn update_expense_params(request: &UpdateExternalExpense) -> (res: Option<Vec<(String, String)>>)
        requires
            request.users matches Some(u) ==> u@.len() * 3 <= usize::MAX,
        ensures
            match request.date {
                Some(t) => match formatted_utc(t, "%Y-%m-%dT%H:%M:%S"@) {
                    Some(d) => res matches Some(p) && form_matches(
                        p@,
                        update_fields(*request, d),
                        match request.users {
                            Some(u) => u@,
                            None => Seq::empty(),
                        },
                    ),
                    None => res is None,
                },
                None => res matches Some(p) && form_matches(
                    p@,
                    update_fields(*request, ""@),
                    match request.users {
                        Some(u) => u@,
                        None => Seq::empty(),
                    },
                ),
            },
    {
        let mut params: Vec<(String, String)> = Vec::new();
        assert(params_view(params@) =~= Seq::empty());
        match &request.description {
            Some(v) => {
                push_field(&mut params, "description", v.clone());
            },
            None => {},
        }
        match &request.cost {
            Some(v) => {
                push_field(&mut params, "cost", v.clone());
            },
            None => {},
        }
        let ghost mut d: Seq<char> = ""@;
        match request.date {
            Some(t) => {
                let date = match format_utc(t, "%Y-%m-%dT%H:%M:%S") {
                    Some(x) => x,
                    None => {
                        return None;
                    },
                };
                proof {
                    d = date@;
                }
                push_field(&mut params, "date", date);
            },
            None => {},
        }
        match &request.notes {
            Some(v) => {
                push_field(&mut params, "details", v.clone());
            },
            None => {},
        }
        assert(params_view(params@) =~= update_fields(*request, d));
        match &request.users {
            Some(u) => {
                append_users(&mut params, u.as_slice());
            },
            None => {
                let empty: Vec<ExpenseUser> = Vec::new();
                append_users(&mut params, empty.as_slice());
            },
        }
        Some(params)
    }
}

impl SplitwiseProvider {
    /// Reads the answer to updating an expense: its errors, when it reports
    /// any, or the updated expense's ID and page.
    pub fn update_result(response: SplitwiseExpenseResponse, external_expense_id: &str) -> (res: Result<ExternalExpenseResult, SplitProviderError>)
        ensures
            match response.errors {
                Some(e) if reports_errors(e.value) => res matches Err(r) && split_error_view(r)
                    == SplitErrorView::ApiError("Splitwise errors: "@ + e.text@),
                _ => res matches Ok(r) && r.external_expense_id@ == external_expense_id@ && (
                r.external_url matches Some(u) && u@ == expense_url(external_expense_id@)),
            },
    {
        match errors_of(&response.errors) {
            Some(e) => Err(e),
            None => Ok(expense_result(owned(external_expense_id))),
        }
    }

    /// Reads the answer to deleting an expense.
    pub fn delete_result(response: SplitwiseDeleteResponse) -> (res: Result<(), SplitProviderError>)
        ensures
            response.success ==> res is Ok,
            !response.success ==> (res matches Err(r) && split_error_view(r) == SplitErrorView::ApiError(
                "Delete operation failed"@,
            )),
    {
        if response.success {
            Ok(())
        } else {
            Err(SplitProviderError::ApiError(owned("Delete operation failed")))
        }
    }

    /// The expenses of a `get_expenses` answer that are not deleted, read.
    pub fn expenses_from_listing(response: &SplitwiseGetExpensesResponse) -> (res: Vec<ExternalExpenseDetail>)
        ensures
            match response.expenses {
                Some(list) => res@.len() == live_expenses(list@).len() && forall|k: int|
                    0 <= k < live_expenses(list@).len() ==> listed_expense_read(
                        #[trigger] res@[k],
                        list@[live_expenses(list@)[k]],
                    ),
                None => res@.len() == 0,
            },
    {
        let mut out: Vec<ExternalExpenseDetail> = Vec::new();
        match &response.expenses {
            Some(list) => {
                let ghost keep = |k: int| list@[k].deleted_at is None;
                let mut k: usize = 0;
                while k < list.len()
                    invariant
                        k <= list@.len(),
                        keep == (|k: int| list@[k].deleted_at is None),
                        out@.len() == indices_where(k as int, keep).len(),
                        forall|j: int|
                            0 <= j < indices_where(k as int, keep).len() ==> listed_expense_read(
                                #[trigger] out@[j],
                                list@[indices_where(k as int, keep)[j]],
                            ),
                    decreases list@.len() - k,
                {
                    if list[k].deleted_at.is_none() {
                        out.push(read_listed_expense(&list[k]));
                    }
                    k = k + 1;
                }
            },
            None => {},
        }
        out
    }

    /// Reads the answer to fetching one expense (`{"expense": {..}}`):
    /// `None` when it is deleted, an invalid-response error when the answer
    /// has no `expense`. Missing fields take their defaults (ID 0, cost
    /// "0.00", currency "USD", shares "0.00"); user entries without a
    /// `user` are skipped.
    pub fn expense_from_answer(json: &JsonValue) -> (res: Result<Option<ExternalExpenseDetail>, SplitProviderError>)
        ensures
            expense_answer_read(*json, res),
    {
        let ev = match json.get("expense") {
            Some(v) => v,
            None => {
                return Err(SplitProviderError::InvalidResponse(owned("Missing 'expense' field")));
            },
        };
        if str_field(ev, "deleted_at").is_some() {
            return Ok(None);
        }
        let id = match crate::json::i64_field(ev, "id") {
            Some(i) => i,
            None => 0,
        };
        let ghost entries = json_users(*ev);
        let ghost keep = |k: int| has_user(entries[k]);
        let mut users: Vec<ExternalExpenseUser> = Vec::new();
        let list = match ev.get("users") {
            Some(v) => v.as_array(),
            None => None,
        };
        match list {
            Some(arr) => {
                let mut k: usize = 0;
                while k < arr.len()
                    invariant
                        k <= arr@.len(),
                        arr@ == entries,
                        keep == (|k: int| has_user(entries[k])),
                        users@.len() == indices_where(k as int, keep).len(),
                        forall|j: int|
                            0 <= j < indices_where(k as int, keep).len() ==> json_user_read(
                                #[trigger] users@[j],
                                entries[indices_where(k as int, keep)[j]],
                            ),
                    decreases arr@.len() - k,
                {
                    let u = &arr[k];
                    if u.get("user").is_some() {
                        users.push(read_json_user(u));
                    }
                    k = k + 1;
                }
            },
            None => {},
        }
        Ok(Some(ExternalExpenseDetail {
            external_expense_id: i64_text(id),
            description: str_field_or(ev, "description", ""),
            cost: str_field_or(ev, "cost", "0.00"),
            currency_code: str_field_or(ev, "currency_code", "USD"),
            date: str_field_or(ev, "date", ""),
            users,
            provider_type: owned("splitwise"),
        }))
    }
}

/// The form that refreshes Splitwise credentials.
pub open spec fn refresh_fields(refresh_token: Seq<char>, client_id: Seq<char>, client_secret: Seq<char>) -> Seq<(Seq<char>, Seq<char>)> {
    seq![
        ("grant_type"@, "refresh_token"@),
        ("refresh_token"@, refresh_token),
        ("client_id"@, client_id),
        ("client_secret"@, client_secret),
    ]
}

pub open spec fn form_view(fs: Seq<(String, String)>) -> Seq<(Seq<char>, Seq<char>)> {
    fs.map_values(|f: (String, String)| (f.0@, f.1@))
}

impl SplitwiseProvider {
    /// The address tokens are refreshed at.
    pub fn token_url() -> (res: &'static str)
        ensures
            res@ == "https://secure.splitwise.com/oauth/token"@,
    {
        "https://secure.splitwise.com/oauth/token"
    }

    /// The form that refreshes expired credentials: their refresh token
    /// (required), and the application's client ID and secret (the
    /// settings `SPLITWISE_CLIENT_ID` and `SPLITWISE_CLIENT_SECRET`).
    pub fn refresh_request(credentials: &JsonValue, client_id: Option<&str>, client_secret: Option<&str>) -> (res: Result<
        Vec<(String, String)>,
        SplitProviderError,
    >)
        ensures
            match field_str(*credentials, "refresh_token"@) {
                None => res matches Err(e) && split_error_view(e) == SplitErrorView::ConfigurationError(
                    "Missing refresh_token in credentials"@,
                ),
                Some(r) => match (client_id, client_secret) {
                    (None, _) => res matches Err(e) && split_error_view(e) == SplitErrorView::ConfigurationError(
                        "SPLITWISE_CLIENT_ID not set"@,
                    ),
                    (Some(_), None) => res matches Err(e) && split_error_view(e) == SplitErrorView::ConfigurationError(
                        "SPLITWISE_CLIENT_SECRET not set"@,
                    ),
                    (Some(i), Some(c)) => res matches Ok(f) && form_view(f@) == refresh_fields(r, i@, c@),
                },
            },
    {
        let refresh_token = SplitwiseProvider::get_refresh_token(credentials)?;
        let id = match client_id {
            Some(i) => i,
            None => {
                return Err(SplitProviderError::ConfigurationError(owned("SPLITWISE_CLIENT_ID not set")));
            },
        };
        let secret = match client_secret {
            Some(c) => c,
            None => {
                return Err(SplitProviderError::ConfigurationError(owned("SPLITWISE_CLIENT_SECRET not set")));
            },
        };
        let ghost r = refresh_token@;
        let mut v: Vec<(String, String)> = Vec::new();
        v.push((owned("grant_type"), owned("refresh_token")));
        v.push((owned("refresh_token"), refresh_token));
        v.push((owned("client_id"), owned(id)));
        v.push((owned("client_secret"), owned(secret)));
        assert(form_view(v@) =~= refresh_fields(r, id@, secret@));
        Ok(v)
    }

    /// The credentials after a refresh answered at `now`: the new access
    /// token, the new refresh token or else the one used, the expiry
    /// `expires_in` seconds later as RFC 3339 text, and the Splitwise user
    /// of the old credentials (null where they had none). `None` where the
    /// expiry lies outside the calendar.
    pub fn refreshed_credentials(
        credentials: &JsonValue,
        access_token: &str,
        new_refresh_token: Option<&str>,
        used_refresh_token: &str,
        expires_in: i64,
        now: Timestamp,
    ) -> (res: Option<JsonValue>)
        requires
            -(i64::MAX / 1000) <= expires_in <= i64::MAX / 1000,
            i64::MIN <= now.seconds + expires_in <= i64::MAX,
        ensures
            match rfc3339_text(Timestamp { seconds: (now.seconds + expires_in) as i64, nanos: now.nanos }) {
                None => res is None,
                Some(t) => res matches Some(c) && {
                    &&& field_str(c, "access_token"@) == Some(access_token@)
                    &&& field_str(c, "refresh_token"@) == Some(
                        match new_refresh_token {
                            Some(n) => n@,
                            None => used_refresh_token@,
                        },
                    )
                    &&& field_str(c, "token_expires_at"@) == Some(t)
                    &&& json_get(c, "splitwise_user_id"@) matches Some(u) && json_view(u) == match json_get(
                        *credentials,
                        "splitwise_user_id"@,
                    ) {
                        Some(x) => json_view(x),
                        None => json_view(JsonValue::Null),
                    }
                },
            },
    {
        let expiry = Timestamp { seconds: now.seconds + expires_in, nanos: now.nanos };
        let expires_text = match format_rfc3339(expiry) {
            Some(t) => t,
            None => {
                return None;
            },
        };
        let refresh = match new_refresh_token {
            Some(n) => owned(n),
            None => owned(used_refresh_token),
        };
        let user = match credentials.get("splitwise_user_id") {
            Some(u) => copy_json(u),
            None => JsonValue::Null,
        };
        let ghost user_view = json_view(user);
        let mut m: Vec<JsonMember> = Vec::new();
        m.push(JsonMember { key: owned("access_token"), value: JsonValue::String(owned(access_token)) });
        m.push(JsonMember { key: owned("refresh_token"), value: JsonValue::String(refresh) });
        m.push(JsonMember { key: owned("token_expires_at"), value: JsonValue::String(expires_text) });
        m.push(JsonMember { key: owned("splitwise_user_id"), value: user });
        let res = JsonValue::Object(m);
        proof {
            reveal_strlit("access_token");
            reveal_strlit("refresh_token");
            reveal_strlit("token_expires_at");
            reveal_strlit("splitwise_user_id");
            let mm = m@;
            assert(mm[0].key@ != "refresh_token"@) by {
                assert(mm[0].key@[0] != "refresh_token"@[0]);
            }
            assert(mm[0].key@ != "token_expires_at"@) by {
                assert(mm[0].key@[0] != "token_expires_at"@[0]);
            }
            assert(mm[0].key@ != "splitwise_user_id"@) by {
                assert(mm[0].key@[0] != "splitwise_user_id"@[0]);
            }
            assert(mm[1].key@ != "token_expires_at"@) by {
                assert(mm[1].key@[0] != "token_expires_at"@[0]);
            }
            assert(mm[1].key@ != "splitwise_user_id"@) by {
                assert(mm[1].key@[1] != "splitwise_user_id"@[1]);
            }
            assert(mm[2].key@ != "splitwise_user_id"@) by {
                assert(mm[2].key@[0] != "splitwise_user_id"@[0]);
            }
            assert(entry_lookup(mm, "access_token"@, 0) is None);
            assert(entry_lookup(mm, "refresh_token"@, 0) is None);
            assert(entry_lookup(mm, "token_expires_at"@, 0) is None);
            assert(entry_lookup(mm, "splitwise_user_id"@, 0) is None);
            assert(entry_lookup(mm, "access_token"@, 1) == Some(mm[0].value));
            assert(entry_lookup(mm, "access_token"@, 2) == Some(mm[0].value));
            assert(entry_lookup(mm, "access_token"@, 3) == Some(mm[0].value));
            assert(entry_lookup(mm, "access_token"@, 4) == Some(mm[0].value));
            assert(entry_lookup(mm, "refresh_token"@, 1) is None);
            assert(entry_lookup(mm, "refresh_token"@, 2) == Some(mm[1].value));
            assert(entry_lookup(mm, "refresh_token"@, 3) == Some(mm[1].value));
            assert(entry_lookup(mm, "refresh_token"@, 4) == Some(mm[1].value));
            assert(entry_lookup(mm, "token_expires_at"@, 1) is None);
            assert(entry_lookup(mm, "token_expires_at"@, 2) is None);
            assert(entry_lookup(mm, "token_expires_at"@, 3) == Some(mm[2].value));
            assert(entry_lookup(mm, "token_expires_at"@, 4) == Some(mm[2].value));
            assert(entry_lookup(mm, "splitwise_user_id"@, 1) is None);
            assert(entry_lookup(mm, "splitwise_user_id"@, 2) is None);
            assert(entry_lookup(mm, "splitwise_user_id"@, 3) is None);
            assert(entry_lookup(mm, "splitwise_user_id"@, 4) == Some(mm[3].value));
        }
        Some(res)
    }
}

/// `(name, value)` where there is a value.
pub open spec fn opt_param(name: Seq<char>, value: Option<&str>) -> Seq<(Seq<char>, Seq<char>)> {
    match value {
        Some(v) => seq![(name, v@)],
        None => Seq::empty(),
    }
}

impl SplitwiseProvider {
    /// The query of an expense listing: the friend, the dates it lies
    /// between where they are given, and the limit (50 by default).
    pub fn expenses_query(
        friend_id: Option<&str>,
        dated_after: Option<&str>,
        dated_before: Option<&str>,
        limit: Option<u32>,
    ) -> (res: Vec<(String, String)>)
        ensures
            form_view(res@) == opt_param("friend_id"@, friend_id) + opt_param("dated_after"@, dated_after) + opt_param(
                "dated_before"@,
                dated_before,
            ) + seq![
                ("limit"@, int_text(
                    match limit {
                        Some(l) => l as int,
                        None => 50,
                    },
                )),
            ],
    {
        let mut params: Vec<(String, String)> = Vec::new();
        let ghost start = form_view(params@);
        match friend_id {
            Some(f) => params.push((owned("friend_id"), owned(f))),
            None => {},
        }
        let ghost after_friend = form_view(params@);
        assert(after_friend =~= opt_param("friend_id"@, friend_id));
        match dated_after {
            Some(a) => params.push((owned("dated_after"), owned(a))),
            None => {},
        }
        assert(form_view(params@) =~= opt_param("friend_id"@, friend_id) + opt_param("dated_after"@, dated_after));
        match dated_before {
            Some(b) => params.push((owned("dated_before"), owned(b))),
            None => {},
        }
        assert(form_view(params@) =~= opt_param("friend_id"@, friend_id) + opt_param("dated_after"@, dated_after)
            + opt_param("dated_before"@, dated_before));
        let lim: u32 = match limit {
            Some(l) => l,
            None => 50,
        };
        let ghost before_limit = params@;
        params.push((owned("limit"), i64_text(lim as i64)));
        assert(form_view(params@) =~= form_view(before_limit) + seq![("limit"@, int_text(lim as int))]);
        params
    }
}

/// An HTTP answer: its status code, the status as displayed
/// ("404 Not Found") and its body as text.
#[derive(Debug, Clone)]
pub struct HttpAnswer {
    pub status: u16,
    pub status_text: String,
    pub body: String,
}

/// The next step of fetching one expense.
#[derive(Debug)]
pub enum ExpenseFetchStep {
    /// Send `GET` to this address with this bearer token.
    Request(String, String),
    /// The fetch ends with this result.
    Done(Result<Option<ExternalExpenseDetail>, SplitProviderError>),
}

/// The API address of one expense.
pub open spec fn expense_api_url(external_expense_id: Seq<char>) -> Seq<char> {
    "https://secure.splitwise.com/api/v3.0/get_expense/"@ + external_expense_id
}

/// Whether `res` ends the fetch with an error of this view.
pub open spec fn fetch_fails(res: ExpenseFetchStep, v: SplitErrorView) -> bool {
    match res {
        ExpenseFetchStep::Done(Err(e)) => split_error_view(e) == v,
        _ => false,
    }
}

/// How the fetch of an expense ends once the answer has come: 404 is no
/// expense; another status outside 2xx is the status's error; a body that
/// is not JSON is an invalid response; otherwise the answer is read.
pub open spec fn fetch_result(res: ExpenseFetchStep, a: HttpAnswer) -> bool {
    if a.status == 404 {
        res matches ExpenseFetchStep::Done(Ok(None))
    } else if !(200 <= a.status < 300) {
        fetch_fails(res, status_error(a.status, a.status_text@, a.body@))
    } else {
        match parsed_json(vstd::utf8::encode_utf8(a.body@)) {
            Err(m) => fetch_fails(res, SplitErrorView::InvalidResponse(m)),
            Ok(jv) => match res {
                ExpenseFetchStep::Done(r) => exists|v: JsonValue| json_view(v) == jv && expense_answer_read(v, r),
                _ => false,
            },
        }
    }
}

impl SplitwiseProvider {
    /// The next step of fetching an expense, from the credentials and the
    /// HTTP answer (or the network error's text) as far as it has come
    /// back: without an access token no request is made; otherwise the
    /// expense's address is requested once and its answer read.
    pub fn get_expense_step(
        credentials: &JsonValue,
        external_expense_id: &str,
        answer: &Reply<Result<HttpAnswer, String>>,
    ) -> (res: ExpenseFetchStep)
        ensures
            match field_str(*credentials, "access_token"@) {
                None => fetch_fails(res, SplitErrorView::ConfigurationError("Missing access_token in credentials"@)),
                Some(token) => match *answer {
                    Reply::Pending => match res {
                        ExpenseFetchStep::Request(u, t) => u@ == expense_api_url(external_expense_id@) && t@ == token,
                        _ => false,
                    },
                    Reply::Got(Err(m)) => fetch_fails(res, SplitErrorView::NetworkError(m@)),
                    Reply::Got(Ok(a)) => fetch_result(res, a),
                },
            },
    {
        let token = match Self::get_access_token(credentials) {
            Ok(t) => t,
            Err(e) => {
                return ExpenseFetchStep::Done(Err(e));
            },
        };
        let a = match answer {
            Reply::Pending => {
                let mut u = owned("https://secure.splitwise.com/api/v3.0/get_expense/");
                push_str(&mut u, external_expense_id);
                return ExpenseFetchStep::Request(u, token);
            },
            Reply::Got(Err(m)) => {
                return ExpenseFetchStep::Done(Err(SplitProviderError::NetworkError(m.clone())));
            },
            Reply::Got(Ok(a)) => a,
        };
        if a.status == 404 {
            return ExpenseFetchStep::Done(Ok(None));
        }
        if !(200 <= a.status && a.status < 300) {
            return ExpenseFetchStep::Done(
                Err(Self::map_status_error(a.status, a.status_text.as_str(), a.body.as_str())),
            );
        }
        let text = a.body.as_str();
        let bytes = text.as_bytes();
        match parse_json(bytes) {
            Err(m) => ExpenseFetchStep::Done(Err(SplitProviderError::InvalidResponse(m))),
            Ok(v) => {
                let r = Self::expense_from_answer(&v);
                ExpenseFetchStep::Done(r)
            },
        }
    }
}

} // verus!
