//! The order of a split sync's steps. The application performs each step
//! (a lookup in the database, a call to the provider) and hands the answer
//! back; these functions say, from the answers so far, what comes next and
//! how the sync ends.
use vstd::prelude::*;
use crate::decimal::{abs_spec, decimal_text, decimal_text_2dp, decimal_to_string, decimal_to_string_2dp, remainder_fits, Decimal};
use crate::errors::{api_error_view, ApiError, ApiErrorView};
use crate::models::{Reply, Timestamp};
use crate::selection::{first_where, lemma_first_where};
use crate::services::split_provider::types::{
    split_error_message, split_error_view, CreateExternalExpense, ExpenseUser, ExternalExpenseDetail,
    ExternalExpenseResult, SplitProviderError, UpdateExternalExpense,
};
use crate::services::split_sync_service::{
    choose_debt_candidate, choose_split_candidate, compare_debt_splits, compare_splits, debt_matches_expense,
    group_matches_expense, opt_participants, opt_text_of, split_amounts, CandidateChoice, ExpenseParticipantInput,
    PersonSplitConfig, SplitSyncRecord, SyncEnd, SyncStatus, TransactionSplit,
};
use crate::text::{owned, push_str};
use crate::types::currency_code::currency_code_label;
use crate::types::CurrencyCode;

verus! {

/// Why a sync of a transaction cannot start: it has no splits (`splits` is
/// their number), or none of them has a split provider configured
/// (`groups` is the number of provider groups).
pub fn sync_start_error(splits: usize, groups: usize) -> (res: Option<ApiError>)
    ensures
        splits == 0 ==> (res matches Some(e) && api_error_view(e) == ApiErrorView::BadRequest(
            "Transaction has no splits to sync"@,
        )),
        splits > 0 && groups == 0 ==> (res matches Some(e) && api_error_view(e) == ApiErrorView::BadRequest(
            "No splits have a configured split provider"@,
        )),
        splits > 0 && groups > 0 ==> res is None,
{
    if splits == 0 {
        Some(ApiError::BadRequest(owned("Transaction has no splits to sync")))
    } else if groups == 0 {
        Some(ApiError::BadRequest(owned("No splits have a configured split provider")))
    } else {
        None
    }
}

/// The next step of syncing a transaction's first provider group.
#[derive(Debug, Clone, PartialEq, Eq)]
pub enum SyncStep {
    /// Fetch the expense the group is linked to.
    FetchLinked(String),
    /// Search the provider for expenses like the transaction.
    Search,
    /// Write the group's sync records as `Synced` with this expense and
    /// answer with this ending (`sync_answer`).
    MarkSynced(String, SyncEnd),
    /// Write the group's sync records as `Failed` with this expense and
    /// answer with the mismatch against it.
    ReportMismatch(String),
    /// Create a new expense for the group, then answer `created`.
    Create,
}

/// Whether the expense at `k` of `cs` matches the group.
pub open spec fn group_matches_at(
    amount: Decimal,
    group: Seq<(TransactionSplit, PersonSplitConfig)>,
    cs: Seq<ExternalExpenseDetail>,
) -> spec_fn(int) -> bool {
    |k: int| group_matches_expense(amount, group, cs[k])
}

/// After a search: create where nothing was found, link the first expense
/// that matches, else report the mismatch with the first one.
pub open spec fn search_step(
    amount: Decimal,
    group: Seq<(TransactionSplit, PersonSplitConfig)>,
    candidates: Reply<Vec<ExternalExpenseDetail>>,
) -> SyncStep {
    match candidates {
        Reply::Pending => SyncStep::Search,
        Reply::Got(cs) => if cs@.len() == 0 {
            SyncStep::Create
        } else {
            match first_where(cs@.len() as int, group_matches_at(amount, group, cs@)) {
                Some(k) => SyncStep::MarkSynced(cs@[k].external_expense_id, SyncEnd::Linked),
                None => SyncStep::ReportMismatch(cs@[0].external_expense_id),
            }
        },
    }
}

/// The steps of a sync of a group of the user's own transaction: a linked
/// expense is fetched first; where it still exists it is in sync or a
/// mismatch; otherwise (or with no link) the provider is searched.
pub open spec fn regular_sync_step(
    amount: Decimal,
    group: Seq<(TransactionSplit, PersonSplitConfig)>,
    linked_expense_id: Option<String>,
    linked: Reply<Option<ExternalExpenseDetail>>,
    candidates: Reply<Vec<ExternalExpenseDetail>>,
) -> SyncStep {
    match linked_expense_id {
        Some(x) => match linked {
            Reply::Pending => SyncStep::FetchLinked(x),
            Reply::Got(Some(e)) => if group_matches_expense(amount, group, e) {
                SyncStep::MarkSynced(x, SyncEnd::Synced)
            } else {
                SyncStep::ReportMismatch(e.external_expense_id)
            },
            Reply::Got(None) => search_step(amount, group, candidates),
        },
        None => search_step(amount, group, candidates),
    }
}

/// The next step of syncing a group of the user's own transaction, from
/// the group's linked expense ID, the fetched linked expense (`None` where
/// the provider no longer has it) and the search results, as far as they
/// have come back.
pub fn sync_step(
    transaction_amount: &Decimal,
    group: &[(TransactionSplit, PersonSplitConfig)],
    linked_expense_id: &Option<String>,
    linked: &Reply<Option<ExternalExpenseDetail>>,
    candidates: &Reply<Vec<ExternalExpenseDetail>>,
) -> (res: SyncStep)
    requires
        remainder_fits(*transaction_amount, split_amounts(group@)),
    ensures
        res == regular_sync_step(*transaction_amount, group@, *linked_expense_id, *linked, *candidates),
{
    match linked_expense_id {
        Some(x) => match linked {
            Reply::Pending => {
                return SyncStep::FetchLinked(x.clone());
            },
            Reply::Got(Some(e)) => {
                if compare_splits(transaction_amount, group, e) {
                    return SyncStep::MarkSynced(x.clone(), SyncEnd::Synced);
                } else {
                    return SyncStep::ReportMismatch(e.external_expense_id.clone());
                }
            },
            Reply::Got(None) => {},
        },
        None => {},
    }
    search(transaction_amount, group, candidates)
}

fn search(
    transaction_amount: &Decimal,
    group: &[(TransactionSplit, PersonSplitConfig)],
    candidates: &Reply<Vec<ExternalExpenseDetail>>,
) -> (res: SyncStep)
    requires
        remainder_fits(*transaction_amount, split_amounts(group@)),
    ensures
        res == search_step(*transaction_amount, group@, *candidates),
{
    match candidates {
        Reply::Pending => SyncStep::Search,
        Reply::Got(cs) => {
            let sl = cs.as_slice();
            let choice = choose_split_candidate(transaction_amount, group, sl);
            let ghost p = group_matches_at(*transaction_amount, group@, cs@);
            assert(p =~= (|k: int| group_matches_expense(*transaction_amount, group@, sl@[k])));
            proof {
                lemma_first_where(cs@.len() as int, cs@.len() as int, p);
            }
            let n = cs.len();
            assert(n == cs@.len());
            match choice {
                CandidateChoice::Create => SyncStep::Create,
                CandidateChoice::Link(k) => SyncStep::MarkSynced(cs[k].external_expense_id.clone(), SyncEnd::Linked),
                CandidateChoice::Mismatch(k) => SyncStep::ReportMismatch(cs[k].external_expense_id.clone()),
            }
        },
    }
}

/// Whether the expense at `k` of `cs` is the debt's expense.
pub open spec fn debt_matches_at(
    participants: Option<Seq<ExpenseParticipantInput>>,
    total_cost: Option<Seq<char>>,
    cs: Seq<ExternalExpenseDetail>,
) -> spec_fn(int) -> bool {
    |k: int| debt_matches_expense(participants, total_cost, cs[k])
}

/// The steps of a sync of a debt (someone else paid): as for the user's own
/// transaction, except that a search links the first matching expense and
/// creates one where none matches.
pub open spec fn debt_sync_step_of(
    participants: Option<Seq<ExpenseParticipantInput>>,
    total_cost: Option<Seq<char>>,
    linked_expense_id: Option<String>,
    linked: Reply<Option<ExternalExpenseDetail>>,
    candidates: Reply<Vec<ExternalExpenseDetail>>,
) -> SyncStep {
    let searched = match candidates {
        Reply::Pending => SyncStep::Search,
        Reply::Got(cs) => match first_where(cs@.len() as int, debt_matches_at(participants, total_cost, cs@)) {
            Some(k) => SyncStep::MarkSynced(cs@[k].external_expense_id, SyncEnd::Linked),
            None => SyncStep::Create,
        },
    };
    match linked_expense_id {
        Some(x) => match linked {
            Reply::Pending => SyncStep::FetchLinked(x),
            Reply::Got(Some(e)) => if debt_matches_expense(participants, total_cost, e) {
                SyncStep::MarkSynced(x, SyncEnd::Synced)
            } else {
                SyncStep::ReportMismatch(x)
            },
            Reply::Got(None) => searched,
        },
        None => searched,
    }
}

/// The next step of syncing a debt's group, from the debt's participants
/// and total cost as recorded, the group's linked expense ID, the fetched
/// linked expense and the search results, as far as they have come back.
pub fn debt_sync_step(
    participants: &Option<Vec<ExpenseParticipantInput>>,
    local_total_cost: &Option<String>,
    linked_expense_id: &Option<String>,
    linked: &Reply<Option<ExternalExpenseDetail>>,
    candidates: &Reply<Vec<ExternalExpenseDetail>>,
) -> (res: SyncStep)
    ensures
        res == debt_sync_step_of(
            opt_participants(participants),
            opt_text_of(local_total_cost),
            *linked_expense_id,
            *linked,
            *candidates,
        ),
{
    match linked_expense_id {
        Some(x) => match linked {
            Reply::Pending => {
                return SyncStep::FetchLinked(x.clone());
            },
            Reply::Got(Some(e)) => {
                if compare_debt_splits(participants, local_total_cost, e) {
                    return SyncStep::MarkSynced(x.clone(), SyncEnd::Synced);
                } else {
                    return SyncStep::ReportMismatch(x.clone());
                }
            },
            Reply::Got(None) => {},
        },
        None => {},
    }
    match candidates {
        Reply::Pending => SyncStep::Search,
        Reply::Got(cs) => {
            let sl = cs.as_slice();
            let found = choose_debt_candidate(participants, local_total_cost, sl);
            let ghost p = debt_matches_at(opt_participants(participants), opt_text_of(local_total_cost), cs@);
            assert(sl@ == cs@);
            assert(p =~= (|j: int|
                debt_matches_expense(opt_participants(participants), opt_text_of(local_total_cost), sl@[j])));
            proof {
                lemma_first_where(cs@.len() as int, cs@.len() as int, p);
            }
            let n = cs.len();
            assert(n == cs@.len());
            match found {
                Some(k) => SyncStep::MarkSynced(cs[k].external_expense_id.clone(), SyncEnd::Linked),
                None => SyncStep::Create,
            }
        },
    }
}

/// A linked expense that the provider no longer has counts as no link: the
/// next step of a debt's sync is then the one of a debt that was never
/// linked. Before the search has answered it is the search; once it has,
/// the first expense that matches the debt is linked, and a new expense is
/// created only when none matches.
pub proof fn lemma_debt_gone_link_searches(
    participants: Option<Seq<ExpenseParticipantInput>>,
    total_cost: Option<Seq<char>>,
    x: String,
    unlinked: Reply<Option<ExternalExpenseDetail>>,
    candidates: Reply<Vec<ExternalExpenseDetail>>,
)
    ensures
        debt_sync_step_of(participants, total_cost, Some(x), Reply::Got(None), candidates) == debt_sync_step_of(
            participants,
            total_cost,
            None,
            unlinked,
            candidates,
        ),
        candidates is Pending ==> debt_sync_step_of(participants, total_cost, Some(x), Reply::Got(None), candidates)
            == SyncStep::Search,
        match candidates {
            Reply::Got(cs) => match debt_sync_step_of(participants, total_cost, Some(x), Reply::Got(None), candidates) {
                SyncStep::MarkSynced(id, end) => {
                    &&& end == SyncEnd::Linked
                    &&& exists|k: int|
                        0 <= k < cs@.len() && id == cs@[k].external_expense_id && debt_matches_expense(
                            participants,
                            total_cost,
                            #[trigger] cs@[k],
                        ) && forall|j: int| 0 <= j < k ==> !debt_matches_expense(participants, total_cost, #[trigger] cs@[j])
                },
                SyncStep::Create => forall|k: int|
                    0 <= k < cs@.len() ==> !debt_matches_expense(participants, total_cost, #[trigger] cs@[k]),
                _ => false,
            },
            Reply::Pending => true,
        },
{
    match candidates {
        Reply::Got(cs) => {
            let p = debt_matches_at(participants, total_cost, cs@);
            lemma_first_where(cs@.len() as int, cs@.len() as int, p);
            match first_where(cs@.len() as int, p) {
                Some(k) => {
                    assert(p(k));
                    assert forall|j: int| 0 <= j < k implies !debt_matches_expense(
                        participants,
                        total_cost,
                        #[trigger] cs@[j],
                    ) by {
                        assert(!p(j));
                    }
                },
                None => {
                    assert forall|k: int| 0 <= k < cs@.len() implies !debt_matches_expense(
                        participants,
                        total_cost,
                        #[trigger] cs@[k],
                    ) by {
                        assert(!p(k));
                    }
                },
            }
        },
        Reply::Pending => {},
    }
}

/// The same holds of a sync of the user's own transaction: a linked
/// expense that is gone counts as no link, and the search comes next.
pub proof fn lemma_gone_link_searches(
    amount: Decimal,
    group: Seq<(TransactionSplit, PersonSplitConfig)>,
    x: String,
    unlinked: Reply<Option<ExternalExpenseDetail>>,
    candidates: Reply<Vec<ExternalExpenseDetail>>,
)
    ensures
        regular_sync_step(amount, group, Some(x), Reply::Got(None), candidates) == regular_sync_step(
            amount,
            group,
            None,
            unlinked,
            candidates,
        ),
        candidates is Pending ==> regular_sync_step(amount, group, Some(x), Reply::Got(None), candidates)
            == SyncStep::Search,
{
}

/// Whether `res` ends the steps with an error of this view.
pub open spec fn group_refuses(res: GroupUpdateStep, v: ApiErrorView) -> bool {
    match res {
        GroupUpdateStep::Refuse(e) => api_error_view(e) == v,
        _ => false,
    }
}

/// The next step of updating a group's expense on its provider.
#[derive(Debug, PartialEq, Eq)]
pub enum GroupUpdateStep {
    /// End with this error; the provider is not called.
    Refuse(ApiError),
    /// Look up the sync record of this split with the provider.
    FindRecord(u128),
    /// Ask the provider to update this expense.
    UpdateExpense(String),
    /// Change every sync record of the group as `group_update_record` does
    /// with this error, and end with this result.
    Finish(Option<String>, Result<(), ApiError>),
}

/// The next step of updating a group's expense, from the group, the sync
/// record of its first split (`None` where there is none) and the
/// provider's answer to the update, as far as they have come back. The
/// expense is the one the first split's record names; the provider is
/// asked once, and its error fails every record of the group.
pub fn update_group_step(
    splits: &[(TransactionSplit, PersonSplitConfig)],
    first_record: &Reply<Option<SplitSyncRecord>>,
    outcome: &Reply<Result<ExternalExpenseResult, SplitProviderError>>,
) -> (res: GroupUpdateStep)
    ensures
        splits@.len() == 0 ==> group_refuses(res, ApiErrorView::BadRequest("No splits provided for update"@)),
        splits@.len() > 0 ==> match *first_record {
            Reply::Pending => res == GroupUpdateStep::FindRecord(splits@[0].0.id),
            Reply::Got(None) => group_refuses(res, ApiErrorView::NotFound("Sync record not found"@)),
            Reply::Got(Some(r)) => match r.external_expense_id {
                None => group_refuses(res, ApiErrorView::BadRequest("No external expense ID found"@)),
                Some(x) => match *outcome {
                    Reply::Pending => res == GroupUpdateStep::UpdateExpense(x),
                    Reply::Got(Ok(_)) => res == GroupUpdateStep::Finish(None, Ok(())),
                    Reply::Got(Err(e)) => match res {
                        GroupUpdateStep::Finish(Some(m), Err(ApiError::External(t))) => {
                            &&& m@ == split_error_message(split_error_view(e))
                            &&& t@ == "Failed to update expense: "@ + m@
                        },
                        _ => false,
                    },
                },
            },
        },
{
    if splits.len() == 0 {
        return GroupUpdateStep::Refuse(ApiError::BadRequest(owned("No splits provided for update")));
    }
    let record = match first_record {
        Reply::Pending => {
            return GroupUpdateStep::FindRecord(splits[0].0.id);
        },
        Reply::Got(None) => {
            return GroupUpdateStep::Refuse(ApiError::NotFound(owned("Sync record not found")));
        },
        Reply::Got(Some(r)) => r,
    };
    let expense_id = match &record.external_expense_id {
        None => {
            return GroupUpdateStep::Refuse(ApiError::BadRequest(owned("No external expense ID found")));
        },
        Some(x) => x,
    };
    match outcome {
        Reply::Pending => GroupUpdateStep::UpdateExpense(expense_id.clone()),
        Reply::Got(Ok(_)) => GroupUpdateStep::Finish(None, Ok(())),
        Reply::Got(Err(e)) => {
            let m = e.message();
            let mut t = owned("Failed to update expense: ");
            push_str(&mut t, m.as_str());
            GroupUpdateStep::Finish(Some(m), Err(ApiError::External(t)))
        },
    }
}

/// How the sync records of a group are written after creating its expense.
#[derive(Debug, Clone, PartialEq, Eq)]
pub struct RecordMark {
    pub external_expense_id: Option<String>,
    pub status: SyncStatus,
    pub last_error: Option<String>,
    pub retry_count: i32,
}

/// The next step of creating a group's expense on its provider.
#[derive(Debug, PartialEq, Eq)]
pub enum CreateGroupStep {
    /// Ask the provider to create the group's expense.
    CreateExpense,
    /// Write the sync record of every split of the group with this mark,
    /// and end with this result.
    Finish(RecordMark, Result<(), ApiError>),
}

/// The next step of creating a group's expense, from the provider's answer
/// as far as it has come back: the provider is asked once; on success every
/// record is `Synced` with the new expense, on failure `Failed` with the
/// provider's error, both with the given retry count.
pub fn create_group_step(outcome: &Reply<Result<ExternalExpenseResult, SplitProviderError>>, retry_count: i32) -> (res:
    CreateGroupStep)
    ensures
        match *outcome {
            Reply::Pending => res == CreateGroupStep::CreateExpense,
            Reply::Got(Ok(r)) => res == CreateGroupStep::Finish(
                RecordMark {
                    external_expense_id: Some(r.external_expense_id),
                    status: SyncStatus::Synced,
                    last_error: None,
                    retry_count,
                },
                Ok(()),
            ),
            Reply::Got(Err(e)) => match res {
                CreateGroupStep::Finish(mark, Err(ApiError::External(t))) => match mark.last_error {
                    Some(m) => {
                        &&& mark.external_expense_id is None
                        &&& mark.status == SyncStatus::Failed
                        &&& mark.retry_count == retry_count
                        &&& m@ == split_error_message(split_error_view(e))
                        &&& t@ == "Failed to create expense: "@ + m@
                    },
                    None => false,
                },
                _ => false,
            },
        },
{
    match outcome {
        Reply::Pending => CreateGroupStep::CreateExpense,
        Reply::Got(Ok(r)) => CreateGroupStep::Finish(
            RecordMark {
                external_expense_id: Some(r.external_expense_id.clone()),
                status: SyncStatus::Synced,
                last_error: None,
                retry_count,
            },
            Ok(()),
        ),
        Reply::Got(Err(e)) => {
            let m = e.message();
            let mut t = owned("Failed to create expense: ");
            push_str(&mut t, m.as_str());
            CreateGroupStep::Finish(
                RecordMark { external_expense_id: None, status: SyncStatus::Failed, last_error: Some(m), retry_count },
                Err(ApiError::External(t)),
            )
        },
    }
}

/// The cost text of a group's expense: a debt's recorded total cost with
/// two decimals where the debt lists its participants, else the absolute
/// amount of the transaction.
pub open spec fn expense_cost_text(amount: Decimal, debt_total_cost: Option<Decimal>) -> Seq<char> {
    match debt_total_cost {
        Some(t) => decimal_text_2dp(t.mantissa as int, t.scale as int),
        None => decimal_text(abs_spec(amount).mantissa as int, abs_spec(amount).scale as int),
    }
}

/// The cost text of a group's expense (`expense_cost_text`).
pub fn expense_cost(amount: &Decimal, debt_total_cost: Option<&Decimal>) -> (res: String)
    requires
        amount.mantissa != i128::MIN,
    ensures
        res@ == expense_cost_text(
            *amount,
            match debt_total_cost {
                Some(t) => Some(*t),
                None => None,
            },
        ),
{
    match debt_total_cost {
        Some(t) => decimal_to_string_2dp(t),
        None => decimal_to_string(&amount.abs()),
    }
}

/// The request that creates a group's expense: the transaction's title,
/// date and notes, the account's currency, the group's users and the cost
/// of `expense_cost`, in no provider group.
pub fn group_create_request(
    title: String,
    notes: Option<String>,
    date: Timestamp,
    currency: CurrencyCode,
    amount: &Decimal,
    debt_total_cost: Option<&Decimal>,
    users: Vec<ExpenseUser>,
) -> (res: CreateExternalExpense)
    requires
        amount.mantissa != i128::MIN,
    ensures
        res.description == title,
        res.notes == notes,
        res.date == date,
        res.group_id is None,
        res.users == users,
        res.currency_code@ == currency_code_label(currency),
        res.cost@ == expense_cost_text(
            *amount,
            match debt_total_cost {
                Some(t) => Some(*t),
                None => None,
            },
        ),
{
    CreateExternalExpense {
        description: title,
        cost: expense_cost(amount, debt_total_cost),
        currency_code: owned(currency.as_str()),
        date,
        group_id: None,
        users,
        notes,
    }
}

/// The request that updates a group's expense: every field is given, as
/// for creating it (without the currency).
pub fn group_update_request(
    title: String,
    notes: Option<String>,
    date: Timestamp,
    amount: &Decimal,
    debt_total_cost: Option<&Decimal>,
    users: Vec<ExpenseUser>,
) -> (res: UpdateExternalExpense)
    requires
        amount.mantissa != i128::MIN,
    ensures
        res.description == Some(title),
        res.notes == notes,
        res.date == Some(date),
        res.users == Some(users),
        res.cost matches Some(c) && c@ == expense_cost_text(
            *amount,
            match debt_total_cost {
                Some(t) => Some(*t),
                None => None,
            },
        ),
{
    UpdateExternalExpense {
        description: Some(title),
        cost: Some(expense_cost(amount, debt_total_cost)),
        date: Some(date),
        users: Some(users),
        notes,
    }
}

} // verus!
