//! The decisions of a bulk sync: which items can be synced, what each
//! push or pull reports, and the report over all items.
use vstd::prelude::*;
use crate::json::{entry_lookup, field_str, field_str_or, json_get, JsonMember, JsonValue};
use crate::selection::{first_where, lemma_first_where};
use crate::text::{owned, push_str, str_eq};
use crate::types::split_provider_type::split_provider_type_label;
use crate::types::SplitProviderType;
use crate::utils::oauth_state::{parse_uuid, uuid_parsed, uuid_to_text};

verus! {

/// Which way an item is synced.
#[derive(Debug, Clone, Copy, PartialEq, Eq, Structural)]
pub enum SyncAction {
    /// The local transaction is sent to the provider.
    Push,
    /// The provider's expense is brought in.
    Pull,
}

/// An item of a bulk sync request.
#[derive(Debug, Clone)]
pub struct SyncItem {
    pub action: SyncAction,
    pub transaction_id: Option<u128>,
    pub external_expense_id: Option<String>,
    pub provider_type: Option<SplitProviderType>,
}

/// What happened to one item.
#[derive(Debug)]
pub struct SyncItemResult {
    pub action: SyncAction,
    pub transaction_id: Option<u128>,
    pub external_expense_id: Option<String>,
    pub provider_type: Option<SplitProviderType>,
    /// "success" or "failed"
    pub status: String,
    pub detail: Option<JsonValue>,
    pub error: Option<String>,
}

#[derive(Debug, Clone, Copy)]
pub struct BulkSyncSummary {
    pub total: usize,
    pub succeeded: usize,
    pub failed: usize,
}

#[derive(Debug)]
pub struct BulkSyncReport {
    pub summary: BulkSyncSummary,
    pub items: Vec<SyncItemResult>,
}

/// What an item asks for, once checked.
#[derive(Debug, Clone)]
pub enum SyncTarget {
    Push(u128),
    Pull(String),
}

pub open spec fn opt_text(o: Option<String>) -> Option<Seq<char>> {
    match o {
        Some(s) => Some(s@),
        None => None,
    }
}

/// `r` reports the failure `error` of `item`.
pub open spec fn failed_result_of(r: SyncItemResult, item: SyncItem, error: Seq<char>) -> bool {
    &&& r.action == item.action
    &&& r.transaction_id == (if item.action == SyncAction::Push { item.transaction_id } else { None })
    &&& opt_text(r.external_expense_id) == (if item.action == SyncAction::Pull {
        opt_text(item.external_expense_id)
    } else {
        None
    })
    &&& r.provider_type == item.provider_type
    &&& r.status@ == "failed"@
    &&& r.detail is None
    &&& r.error matches Some(m) && m@ == error
}

fn copy_text(o: &Option<String>) -> (res: Option<String>)
    ensures
        opt_text(res) == opt_text(*o),
{
    match o {
        Some(s) => Some(s.clone()),
        None => None,
    }
}

/// The report of an item that failed with `error`.
pub fn failed_result(item: &SyncItem, error: String) -> (res: SyncItemResult)
    ensures
        failed_result_of(res, *item, error@),
{
    let (transaction_id, external_expense_id) = match item.action {
        SyncAction::Push => (item.transaction_id, None),
        SyncAction::Pull => (None, copy_text(&item.external_expense_id)),
    };
    SyncItemResult {
        action: item.action,
        transaction_id,
        external_expense_id,
        provider_type: item.provider_type,
        status: owned("failed"),
        detail: None,
        error: Some(error),
    }
}

/// What an item asks for: a push needs the transaction, a pull a non-empty
/// external expense ID; an item without one fails with its report.
pub fn check_item(item: &SyncItem) -> (res: Result<SyncTarget, SyncItemResult>)
    ensures
        item.action == SyncAction::Push ==> match item.transaction_id {
            Some(id) => res matches Ok(SyncTarget::Push(t)) && t == id,
            None => res matches Err(r) && failed_result_of(r, *item, "push action requires transaction_id"@),
        },
        item.action == SyncAction::Pull ==> match item.external_expense_id {
            Some(x) => if x@.len() > 0 {
                res matches Ok(SyncTarget::Pull(t)) && t@ == x@
            } else {
                res matches Err(r) && failed_result_of(r, *item, "pull action requires external_expense_id"@)
            },
            None => res matches Err(r) && failed_result_of(r, *item, "pull action requires external_expense_id"@),
        },
{
    match item.action {
        SyncAction::Push => match item.transaction_id {
            Some(id) => Ok(SyncTarget::Push(id)),
            None => Err(failed_result(item, owned("push action requires transaction_id"))),
        },
        SyncAction::Pull => match &item.external_expense_id {
            Some(x) => if x.as_str().unicode_len() > 0 {
                Ok(SyncTarget::Pull(x.clone()))
            } else {
                Err(failed_result(item, owned("pull action requires external_expense_id")))
            },
            None => Err(failed_result(item, owned("pull action requires external_expense_id"))),
        },
    }
}

/// The counts agree with the items reported.
pub open spec fn report_consistent(r: BulkSyncReport) -> bool {
    r.summary.succeeded + r.summary.failed == r.items@.len()
}

/// An empty report for `total` items.
pub fn new_report(total: usize) -> (res: BulkSyncReport)
    ensures
        res.summary.total == total,
        res.summary.succeeded == 0,
        res.summary.failed == 0,
        res.items@.len() == 0,
        report_consistent(res),
{
    BulkSyncReport { summary: BulkSyncSummary { total, succeeded: 0, failed: 0 }, items: Vec::new() }
}

/// Records what became of `item`: its success report, or a failure with
/// the error's message.
pub fn record_outcome(report: &mut BulkSyncReport, item: &SyncItem, outcome: Result<SyncItemResult, String>)
    requires
        old(report).items@.len() < usize::MAX,
        report_consistent(*old(report)),
    ensures
        report_consistent(*final(report)),
        final(report).summary.total == old(report).summary.total,
        final(report).items@.len() == old(report).items@.len() + 1,
        forall|i: int| 0 <= i < old(report).items@.len() ==> #[trigger] final(report).items@[i] == old(report).items@[i],
        match outcome {
            Ok(r) => {
                &&& final(report).summary.succeeded == old(report).summary.succeeded + 1
                &&& final(report).summary.failed == old(report).summary.failed
                &&& final(report).items@.last() == r
            },
            Err(m) => {
                &&& final(report).summary.succeeded == old(report).summary.succeeded
                &&& final(report).summary.failed == old(report).summary.failed + 1
                &&& failed_result_of(final(report).items@.last(), *item, m@)
            },
        },
{
    match outcome {
        Ok(r) => {
            report.summary.succeeded = report.summary.succeeded + 1;
            report.items.push(r);
        },
        Err(m) => {
            report.summary.failed = report.summary.failed + 1;
            report.items.push(failed_result(item, m));
        },
    }
}

/// Records an item that could not be synced at all, with its report.
pub fn record_invalid(report: &mut BulkSyncReport, failed: SyncItemResult)
    requires
        old(report).items@.len() < usize::MAX,
        report_consistent(*old(report)),
    ensures
        report_consistent(*final(report)),
        final(report).summary.total == old(report).summary.total,
        final(report).summary.succeeded == old(report).summary.succeeded,
        final(report).summary.failed == old(report).summary.failed + 1,
        final(report).items@ == old(report).items@.push(failed),
{
    report.summary.failed = report.summary.failed + 1;
    report.items.push(failed);
}

/// The `status` member of a sync answer, or "unknown".
pub open spec fn answer_status(answer: JsonValue) -> Seq<char> {
    field_str_or(answer, "status"@, "unknown"@)
}

fn member(key: &str, value: JsonValue) -> (res: JsonMember)
    ensures
        res.key@ == key@,
        res.value == value,
{
    JsonMember { key: owned(key), value }
}

/// What comes after a push's sync answer.
#[derive(Debug)]
pub enum PushNext {
    /// The transaction and the expense differ: resolve it by pushing, for
    /// this expense.
    Resolve(String),
    /// The push is done.
    Done(SyncItemResult),
}

/// The success report of a push of `transaction_id`, with the final sync
/// status and the expense.
pub open spec fn push_done_of(r: SyncItemResult, transaction_id: u128, ext: Option<Seq<char>>, status: Seq<char>) -> bool {
    &&& r.action == SyncAction::Push
    &&& r.transaction_id == Some(transaction_id)
    &&& opt_text(r.external_expense_id) == ext
    &&& r.provider_type is None
    &&& r.status@ == "success"@
    &&& r.error is None
    &&& r.detail matches Some(d) && json_get(d, "sync_status"@) matches Some(JsonValue::String(s)) && s@ == status
}

fn push_report(transaction_id: u128, ext: Option<String>, status: String) -> (res: SyncItemResult)
    ensures
        push_done_of(res, transaction_id, opt_text(ext), status@),
{
    let ghost status_view = status@;
    let ext_value = match &ext {
        Some(x) => JsonValue::String(x.clone()),
        None => JsonValue::Null,
    };
    let mut m: Vec<JsonMember> = Vec::new();
    m.push(member("sync_status", JsonValue::String(status)));
    m.push(member("external_expense_id", ext_value));
    proof {
        reveal_strlit("sync_status");
        assert(entry_lookup(m@, "sync_status"@, 0) is None);
        assert(entry_lookup(m@, "sync_status"@, 1) == Some(m@[0].value));
        assert(entry_lookup(m@, "sync_status"@, 2) == Some(m@[0].value));
    }
    SyncItemResult {
        action: SyncAction::Push,
        transaction_id: Some(transaction_id),
        external_expense_id: ext,
        provider_type: None,
        status: owned("success"),
        detail: Some(JsonValue::Object(m)),
        error: None,
    }
}

/// Decides after the sync answer of a push of `transaction_id`: a
/// "mismatch" is resolved by pushing (it needs the expense's ID); any other
/// status is the push's result.
pub fn push_after_sync(transaction_id: u128, answer: &JsonValue) -> (res: Result<PushNext, String>)
    ensures
        answer_status(*answer) == "mismatch"@ ==> match field_str(*answer, "external_expense_id"@) {
            Some(x) => res matches Ok(PushNext::Resolve(e)) && e@ == x,
            None => res matches Err(m) && m@ == "mismatch response missing external_expense_id"@,
        },
        answer_status(*answer) != "mismatch"@ ==> (res matches Ok(PushNext::Done(r)) && push_done_of(
            r,
            transaction_id,
            field_str(*answer, "external_expense_id"@),
            answer_status(*answer),
        )),
{
    let status = crate::json::str_field_or(answer, "status", "unknown");
    if str_eq(status.as_str(), "mismatch") {
        return match crate::json::str_field(answer, "external_expense_id") {
            Some(x) => Ok(PushNext::Resolve(owned(x))),
            None => Err(owned("mismatch response missing external_expense_id")),
        };
    }
    let ext = match crate::json::str_field(answer, "external_expense_id") {
        Some(x) => Some(owned(x)),
        None => None,
    };
    Ok(PushNext::Done(push_report(transaction_id, ext, status)))
}

/// The result of a push resolved against the expense `ext_id`, from the
/// resolution's answer.
pub fn push_after_resolve(transaction_id: u128, ext_id: &str, answer: &JsonValue) -> (res: SyncItemResult)
    ensures
        push_done_of(res, transaction_id, Some(ext_id@), answer_status(*answer)),
{
    let status = crate::json::str_field_or(answer, "status", "unknown");
    push_report(transaction_id, Some(owned(ext_id)), status)
}

/// The success report of a pull of expense `ext`.
pub open spec fn pull_done_of(
    r: SyncItemResult,
    transaction_id: Option<u128>,
    ext: Seq<char>,
    provider_type: Option<SplitProviderType>,
    status: Seq<char>,
) -> bool {
    &&& r.action == SyncAction::Pull
    &&& r.transaction_id == transaction_id
    &&& opt_text(r.external_expense_id) == Some(ext)
    &&& r.provider_type == provider_type
    &&& r.status@ == "success"@
    &&& r.error is None
    &&& r.detail matches Some(d) && json_get(d, "sync_status"@) matches Some(JsonValue::String(s)) && s@ == status
}

fn pull_report(
    transaction_id: Option<u128>,
    ext_id: &str,
    provider_type: Option<SplitProviderType>,
    status: String,
    with_expense: bool,
) -> (res: SyncItemResult)
    ensures
        pull_done_of(res, transaction_id, ext_id@, provider_type, status@),
{
    let id_value = match transaction_id {
        Some(t) => JsonValue::String(uuid_to_text(t)),
        None => JsonValue::Null,
    };
    let mut m: Vec<JsonMember> = Vec::new();
    m.push(member("sync_status", JsonValue::String(status)));
    m.push(member("transaction_id", id_value));
    if with_expense {
        m.push(member("external_expense_id", JsonValue::String(owned(ext_id))));
    }
    proof {
        reveal_strlit("sync_status");
        assert(entry_lookup(m@, "sync_status"@, 0) is None);
        assert(entry_lookup(m@, "sync_status"@, 1) == Some(m@[0].value));
        assert(entry_lookup(m@, "sync_status"@, 2) == Some(m@[0].value));
        assert(entry_lookup(m@, "sync_status"@, m@.len() as int) == Some(m@[0].value));
    }
    SyncItemResult {
        action: SyncAction::Pull,
        transaction_id,
        external_expense_id: Some(owned(ext_id)),
        provider_type,
        status: owned("success"),
        detail: Some(JsonValue::Object(m)),
        error: None,
    }
}

/// The result of pulling an expense that is already linked to the
/// transaction `transaction_id`: the mismatch is resolved by pulling.
pub fn pull_after_resolve(
    transaction_id: u128,
    ext_id: &str,
    provider_type: Option<SplitProviderType>,
    answer: &JsonValue,
) -> (res: SyncItemResult)
    ensures
        pull_done_of(res, Some(transaction_id), ext_id@, provider_type, answer_status(*answer)),
{
    let status = crate::json::str_field_or(answer, "status", "unknown");
    pull_report(Some(transaction_id), ext_id, provider_type, status, false)
}

/// The result of importing an expense that was not linked yet, from the
/// import's answer (`transaction_id`, where it reads as a UUID).
pub fn pull_after_import(ext_id: &str, provider_type: Option<SplitProviderType>, answer: &JsonValue) -> (res: SyncItemResult)
    ensures
        pull_done_of(
            res,
            match field_str(*answer, "transaction_id"@) {
                Some(s) => uuid_parsed(s),
                None => None,
            },
            ext_id@,
            provider_type,
            answer_status(*answer),
        ),
{
    let status = crate::json::str_field_or(answer, "status", "unknown");
    let transaction_id = match crate::json::str_field(answer, "transaction_id") {
        Some(s) => parse_uuid(s),
        None => None,
    };
    pull_report(transaction_id, ext_id, provider_type, status, true)
}

/// A split provider of the user.
#[derive(Debug, Clone, Copy)]
pub struct ProviderChoice {
    pub id: u128,
    pub is_active: bool,
    pub provider_type: SplitProviderType,
}

/// The provider `k` can take a pull: it is active and, where a type is
/// asked for, of that type.
pub open spec fn usable_provider(ps: Seq<ProviderChoice>, wanted: Option<SplitProviderType>, k: int) -> bool {
    ps[k].is_active && match wanted {
        Some(t) => ps[k].provider_type == t,
        None => true,
    }
}

/// The provider a pull goes through: the first usable one.
pub fn choose_pull_provider(providers: &Vec<ProviderChoice>, wanted: Option<SplitProviderType>) -> (res: Result<u128, String>)
    ensures
        match first_where(providers@.len() as int, |k: int| usable_provider(providers@, wanted, k)) {
            Some(k) => res == Ok::<u128, String>(providers@[k].id),
            None => match wanted {
                Some(t) => res matches Err(m) && m@ == "No active "@ + split_provider_type_label(t)
                    + " provider configured for user"@,
                None => res matches Err(m) && m@ == "No active split provider configured for user"@,
            },
        },
{
    let ghost p = |k: int| usable_provider(providers@, wanted, k);
    let mut i: usize = 0;
    while i < providers.len()
        invariant
            i <= providers@.len(),
            p == (|k: int| usable_provider(providers@, wanted, k)),
            forall|j: int| 0 <= j < i ==> !#[trigger] p(j),
        decreases providers@.len() - i,
    {
        let c = providers[i];
        let usable = c.is_active && match wanted {
            Some(t) => c.provider_type == t,
            None => true,
        };
        if usable {
            proof {
                assert(p(i as int));
                lemma_first_where(i as int, i as int, p);
                assert(first_where(i as int, p) is None);
                assert(first_where(i + 1, p) == Some(i as int));
                lemma_first_where(i + 1, providers@.len() as int, p);
            }
            return Ok(c.id);
        }
        assert(!p(i as int));
        i = i + 1;
    }
    proof {
        lemma_first_where(providers@.len() as int, providers@.len() as int, p);
        if first_where(providers@.len() as int, p) is Some {
            let k = first_where(providers@.len() as int, p)->0;
            assert(p(k));
        }
    }
    match wanted {
        Some(t) => {
            let mut m = owned("No active ");
            push_str(&mut m, t.display_text().as_str());
            push_str(&mut m, " provider configured for user");
            Err(m)
        },
        None => Err(owned("No active split provider configured for user")),
    }
}

} // verus!
