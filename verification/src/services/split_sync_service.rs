//! The decisions of syncing transaction splits with split providers.
//!
//! The application fetches transactions, splits and sync records, and talks
//! to the providers; the library groups the splits, builds the users of an
//! expense, compares local splits with an external expense and decides
//! what a sync does.
use vstd::prelude::*;
use crate::decimal::{
    abs_spec, decimal_text, decimal_to_string, read_decimal, readable_decimal, remainder,
    remainder_fits, remainder_of, same_value, sign_of, sum, sum_in_range, total_of, Decimal,
};
use crate::services::drift_detection_service::{external_share, share_of};
use crate::errors::{api_error_view, ApiError, ApiErrorView};
use crate::json::{field_i64, field_str, json_get, json_i64, json_str, JsonMember, JsonValue};
use crate::selection::{first_where, indices_where, lemma_first_where};
use crate::services::split_provider::types::{ExpenseUser, ExternalExpenseDetail, ExternalExpenseUser};
use crate::text::{i64_text, int_text, owned, push_str, str_eq, trim, trimmed};
use crate::decimal::{decimal_text_2dp, decimal_to_string_2dp};
use crate::models::Timestamp;
use crate::time::{date_midnight, parse_date_midnight, parse_rfc3339, parsed_rfc3339};
use crate::types::currency_code::{currency_code_from_label, currency_variant_name};
use crate::types::CurrencyCode;

verus! {

/// Retries stop once a sync record has failed this many times.
pub const MAX_RETRY_COUNT: i32 = 5;

/// A split of a transaction: what one person owes.
#[derive(Debug, Clone, Copy, PartialEq, Eq, Structural)]
pub struct TransactionSplit {
    pub id: u128,
    pub transaction_id: u128,
    pub person_id: u128,
    pub amount: Decimal,
}

/// How a person is known to a split provider.
#[derive(Debug, Clone)]
pub struct PersonSplitConfig {
    pub id: u128,
    pub person_id: u128,
    pub split_provider_id: u128,
    pub external_user_id: String,
}

/// The state of a split's sync with a provider.
#[derive(Debug, Clone, Copy, PartialEq, Eq, Structural)]
pub enum SyncStatus {
    Pending,
    Synced,
    Failed,
}

pub open spec fn sync_status_label(s: SyncStatus) -> Seq<char> {
    match s {
        SyncStatus::Pending => "pending"@,
        SyncStatus::Synced => "synced"@,
        SyncStatus::Failed => "failed"@,
    }
}

impl SyncStatus {
    /// The stored name of the status.
    pub fn as_str(&self) -> (res: &'static str)
        ensures
            res@ == sync_status_label(*self),
    {
        match self {
            SyncStatus::Pending => "pending",
            SyncStatus::Synced => "synced",
            SyncStatus::Failed => "failed",
        }
    }
}

/// The record of a split's sync with a provider.
#[derive(Debug, Clone)]
pub struct SplitSyncRecord {
    pub id: u128,
    pub transaction_split_id: u128,
    pub split_provider_id: u128,
    pub external_expense_id: Option<String>,
    pub sync_status: String,
    pub last_error: Option<String>,
    pub retry_count: i32,
}

/// The status a stored name denotes (unknown names read as pending).
pub open spec fn status_of_label(s: Seq<char>) -> SyncStatus {
    if s == "synced"@ {
        SyncStatus::Synced
    } else if s == "failed"@ {
        SyncStatus::Failed
    } else {
        SyncStatus::Pending
    }
}

impl SplitSyncRecord {
    /// The record's status.
    pub fn status(&self) -> (res: SyncStatus)
        ensures
            res == status_of_label(self.sync_status@),
    {
        if str_eq(self.sync_status.as_str(), "synced") {
            SyncStatus::Synced
        } else if str_eq(self.sync_status.as_str(), "failed") {
            SyncStatus::Failed
        } else {
            SyncStatus::Pending
        }
    }
}

/// A copy of a provider config.
pub fn copy_config(c: &PersonSplitConfig) -> (res: PersonSplitConfig)
    ensures
        res == *c,
{
    PersonSplitConfig {
        id: c.id,
        person_id: c.person_id,
        split_provider_id: c.split_provider_id,
        external_user_id: c.external_user_id.clone(),
    }
}

/// Whether the split at `k` has a config for provider `pid`.
pub open spec fn configured_for(items: Seq<(TransactionSplit, Option<PersonSplitConfig>)>, k: int, pid: u128) -> bool {
    items[k].1 matches Some(c) && c.split_provider_id == pid
}

/// The positions of the splits configured for provider `pid`.
pub open spec fn provider_positions(items: Seq<(TransactionSplit, Option<PersonSplitConfig>)>, pid: u128) -> Seq<int> {
    indices_where(items.len() as int, |k: int| configured_for(items, k, pid))
}

/// The group of provider `pid` holds its configured splits in order.
pub open spec fn group_matches(
    group: Seq<(TransactionSplit, PersonSplitConfig)>,
    items: Seq<(TransactionSplit, Option<PersonSplitConfig>)>,
    pid: u128,
    n: int,
) -> bool {
    let pos = indices_where(n, |k: int| configured_for(items, k, pid));
    &&& group.len() == pos.len()
    &&& forall|j: int| 0 <= j < pos.len() ==> (#[trigger] group[j]).0 == items[pos[j]].0 && Some(group[j].1) == items[pos[j]].1
}

/// `groups` group the first `n` splits by provider: one group per
/// provider that some configured split names, in order of first
/// appearance, each with that provider's splits in order.
pub open spec fn grouped_by_provider(
    groups: Seq<(u128, Vec<(TransactionSplit, PersonSplitConfig)>)>,
    items: Seq<(TransactionSplit, Option<PersonSplitConfig>)>,
    n: int,
) -> bool {
    &&& forall|g: int| 0 <= g < groups.len() ==> group_matches((#[trigger] groups[g]).1@, items, groups[g].0, n)
    &&& forall|g: int| 0 <= g < groups.len() ==> indices_where(n, |k: int| configured_for(items, k, (#[trigger] groups[g]).0)).len() > 0
    &&& forall|a: int, b: int| 0 <= a < b < groups.len() ==> (#[trigger] groups[a]).0 != (#[trigger] groups[b]).0
    &&& forall|k: int| 0 <= k < n && (#[trigger] items[k]).1 is Some ==> exists|g: int|
        0 <= g < groups.len() && (#[trigger] groups[g]).0 == items[k].1.unwrap().split_provider_id
}

/// The position of the group of provider `pid`, if there is one.
fn find_group(groups: &Vec<(u128, Vec<(TransactionSplit, PersonSplitConfig)>)>, pid: u128) -> (res: Option<usize>)
    ensures
        match res {
            Some(g) => g < groups@.len() && groups@[g as int].0 == pid,
            None => forall|g: int| 0 <= g < groups@.len() ==> (#[trigger] groups@[g]).0 != pid,
        },
{
    let mut g: usize = 0;
    while g < groups.len()
        invariant
            g <= groups@.len(),
            forall|h: int| 0 <= h < g ==> (#[trigger] groups@[h]).0 != pid,
        decreases groups@.len() - g,
    {
        if groups[g].0 == pid {
            return Some(g);
        }
        g = g + 1;
    }
    None
}

/// Groups the splits that have a provider config by provider, in order of
/// first appearance; splits without a config are left out.
pub fn group_splits_by_provider(
    splits_with_configs: Vec<(TransactionSplit, Option<PersonSplitConfig>)>,
) -> (res: Vec<(u128, Vec<(TransactionSplit, PersonSplitConfig)>)>)
    ensures
        grouped_by_provider(res@, splits_with_configs@, splits_with_configs@.len() as int),
{
    let ghost items = splits_with_configs@;
    let mut groups: Vec<(u128, Vec<(TransactionSplit, PersonSplitConfig)>)> = Vec::new();
    let mut k: usize = 0;
    while k < splits_with_configs.len()
        invariant
            items == splits_with_configs@,
            k <= items.len(),
            grouped_by_provider(groups@, items, k as int),
        decreases items.len() - k,
    {
        let ghost before = groups@;
        match &splits_with_configs[k].1 {
            Some(config) => {
                let pid = config.split_provider_id;
                let entry = (splits_with_configs[k].0, copy_config(config));
                assert(configured_for(items, k as int, pid));
                match find_group(&groups, pid) {
                    Some(gi) => {
                        let mut list: Vec<(TransactionSplit, PersonSplitConfig)> = Vec::new();
                        std::mem::swap(&mut list, &mut groups[gi].1);
                        list.push(entry);
                        std::mem::swap(&mut list, &mut groups[gi].1);
                        proof {
                            assert forall|g: int| 0 <= g < groups@.len() implies group_matches(
                                (#[trigger] groups@[g]).1@,
                                items,
                                groups@[g].0,
                                k + 1,
                            ) by {
                                if g != gi {
                                    assert(groups@[g] == before[g]);
                                    assert(!configured_for(items, k as int, groups@[g].0));
                                }
                            }
                            assert forall|g: int| 0 <= g < groups@.len() implies indices_where(
                                k + 1,
                                |j: int| configured_for(items, j, (#[trigger] groups@[g]).0),
                            ).len() > 0 by {
                                assert(groups@[g].0 == before[g].0);
                            }
                            assert forall|a: int, b: int| 0 <= a < b < groups@.len() implies (#[trigger] groups@[a]).0
                                != (#[trigger] groups@[b]).0 by {
                                assert(groups@[a].0 == before[a].0);
                                assert(groups@[b].0 == before[b].0);
                            }
                            assert forall|j: int| 0 <= j < k + 1 && (#[trigger] items[j]).1 is Some implies exists|g: int|
                                0 <= g < groups@.len() && (#[trigger] groups@[g]).0 == items[j].1.unwrap().split_provider_id by {
                                if j < k {
                                    let g = choose|g: int| 0 <= g < before.len() && (#[trigger] before[g]).0 == items[j].1.unwrap().split_provider_id;
                                    assert(groups@[g].0 == before[g].0);
                                } else {
                                    assert(groups@[gi as int].0 == pid);
                                }
                            }
                        }
                    },
                    None => {
                        proof {
                            assert(indices_where(k as int, |j: int| configured_for(items, j, pid)).len() == 0) by {
                                crate::selection::lemma_indices_where(k as int, |j: int| configured_for(items, j, pid));
                                if indices_where(k as int, |j: int| configured_for(items, j, pid)).len() > 0 {
                                    let j = indices_where(k as int, |j: int| configured_for(items, j, pid))[0];
                                    assert(configured_for(items, j, pid));
                                    assert(items[j].1 is Some);
                                    let g = choose|g: int| 0 <= g < before.len() && (#[trigger] before[g]).0 == items[j].1.unwrap().split_provider_id;
                                    assert(before[g].0 != pid);
                                }
                            }
                        }
                        let mut list: Vec<(TransactionSplit, PersonSplitConfig)> = Vec::new();
                        list.push(entry);
                        groups.push((pid, list));
                        proof {
                            assert forall|g: int| 0 <= g < groups@.len() implies group_matches(
                                (#[trigger] groups@[g]).1@,
                                items,
                                groups@[g].0,
                                k + 1,
                            ) by {
                                if g < before.len() {
                                    assert(groups@[g] == before[g]);
                                    assert(!configured_for(items, k as int, groups@[g].0));
                                }
                            }
                            assert forall|g: int| 0 <= g < groups@.len() implies indices_where(
                                k + 1,
                                |j: int| configured_for(items, j, (#[trigger] groups@[g]).0),
                            ).len() > 0 by {
                                if g < before.len() {
                                    assert(groups@[g] == before[g]);
                                }
                            }
                            assert forall|a: int, b: int| 0 <= a < b < groups@.len() implies (#[trigger] groups@[a]).0
                                != (#[trigger] groups@[b]).0 by {
                                if b < before.len() {
                                    assert(groups@[a] == before[a]);
                                    assert(groups@[b] == before[b]);
                                } else {
                                    assert(groups@[a] == before[a]);
                                }
                            }
                            assert forall|j: int| 0 <= j < k + 1 && (#[trigger] items[j]).1 is Some implies exists|g: int|
                                0 <= g < groups@.len() && (#[trigger] groups@[g]).0 == items[j].1.unwrap().split_provider_id by {
                                if j < k {
                                    let g = choose|g: int| 0 <= g < before.len() && (#[trigger] before[g]).0 == items[j].1.unwrap().split_provider_id;
                                    assert(groups@[g] == before[g]);
                                } else {
                                    assert(groups@[before.len() as int].0 == pid);
                                }
                            }
                        }
                    },
                }
            },
            None => {
                proof {
                    assert forall|g: int| 0 <= g < groups@.len() implies group_matches(
                        (#[trigger] groups@[g]).1@,
                        items,
                        groups@[g].0,
                        k + 1,
                    ) by {
                        assert(!configured_for(items, k as int, groups@[g].0));
                    }
                    assert forall|g: int| 0 <= g < groups@.len() implies indices_where(
                        k + 1,
                        |j: int| configured_for(items, j, (#[trigger] groups@[g]).0),
                    ).len() > 0 by {
                        assert(!configured_for(items, k as int, groups@[g].0));
                    }
                }
            },
        }
        k = k + 1;
    }
    groups
}

/// The amounts of the splits of a group.
pub open spec fn split_amounts(splits: Seq<(TransactionSplit, PersonSplitConfig)>) -> Seq<Decimal> {
    splits.map_values(|p: (TransactionSplit, PersonSplitConfig)| p.0.amount)
}

pub open spec fn text_of(d: Decimal) -> Seq<char> {
    decimal_text(d.mantissa as int, d.scale as int)
}

/// `u` is the user (`id`, paid, owed).
pub open spec fn user_is(u: ExpenseUser, id: Seq<char>, paid: Seq<char>, owed: Seq<char>) -> bool {
    u.external_user_id@ == id && u.paid_share@ == paid && u.owed_share@ == owed
}

fn expense_user(id: String, paid: String, owed: String) -> (res: ExpenseUser)
    ensures
        user_is(res, id@, paid@, owed@),
{
    ExpenseUser { external_user_id: id, paid_share: paid, owed_share: owed }
}

/// The amounts of the splits of a group (`split_amounts`).
fn amounts_of(splits: &[(TransactionSplit, PersonSplitConfig)]) -> (res: Vec<Decimal>)
    ensures
        res@ == split_amounts(splits@),
{
    let mut v: Vec<Decimal> = Vec::new();
    let mut k: usize = 0;
    while k < splits.len()
        invariant
            k <= splits@.len(),
            v@ == split_amounts(splits@).take(k as int),
        decreases splits@.len() - k,
    {
        v.push(splits[k].0.amount);
        k = k + 1;
    }
    assert(v@ == split_amounts(splits@));
    v
}

/// The users of an expense the current user paid: the payer paid
/// `|amount|` and owes what the splits leave (`|amount| - Σ |split|`); each
/// split's person paid "0.00" and owes `|split|`.
pub fn build_expense_users(
    transaction_amount: &Decimal,
    splits: &[(TransactionSplit, PersonSplitConfig)],
    payer_external_id: &str,
) -> (res: Vec<ExpenseUser>)
    requires
        remainder_fits(*transaction_amount, split_amounts(splits@)),
    ensures
        res@.len() == splits@.len() + 1,
        user_is(
            res@[0],
            payer_external_id@,
            text_of(abs_spec(*transaction_amount)),
            text_of(remainder_of(*transaction_amount, split_amounts(splits@))),
        ),
        forall|k: int|
            0 <= k < splits@.len() ==> user_is(
                #[trigger] res@[k + 1],
                splits@[k].1.external_user_id@,
                "0.00"@,
                text_of(abs_spec(splits@[k].0.amount)),
            ),
{
    let amounts = amounts_of(splits);
    let abs_amount = transaction_amount.abs();
    let payer_owed = remainder(transaction_amount, &amounts);
    let mut users: Vec<ExpenseUser> = Vec::new();
    users.push(expense_user(owned(payer_external_id), decimal_to_string(&abs_amount), decimal_to_string(&payer_owed)));
    let mut k: usize = 0;
    while k < splits.len()
        invariant
            k <= splits@.len(),
            remainder_fits(*transaction_amount, split_amounts(splits@)),
            users@.len() == k + 1,
            user_is(
                users@[0],
                payer_external_id@,
                text_of(abs_spec(*transaction_amount)),
                text_of(remainder_of(*transaction_amount, split_amounts(splits@))),
            ),
            forall|j: int|
                0 <= j < k ==> user_is(
                    #[trigger] users@[j + 1],
                    splits@[j].1.external_user_id@,
                    "0.00"@,
                    text_of(abs_spec(splits@[j].0.amount)),
                ),
        decreases splits@.len() - k,
    {
        assert(split_amounts(splits@)[k as int] == splits@[k as int].0.amount);
        let owed = splits[k].0.amount.abs();
        users.push(expense_user(splits[k].1.external_user_id.clone(), owned("0.00"), decimal_to_string(&owed)));
        k = k + 1;
    }
    users
}

/// The users of an expense someone else paid (a debt): each split's person
/// paid `|amount|` and owes "0.00"; the current user, last, paid "0.00" and
/// owes `|amount|`.
pub fn build_debt_expense_users(
    transaction_amount: &Decimal,
    splits: &[(TransactionSplit, PersonSplitConfig)],
    current_user_external_id: &str,
) -> (res: Vec<ExpenseUser>)
    requires
        transaction_amount.mantissa != i128::MIN,
    ensures
        res@.len() == splits@.len() + 1,
        forall|k: int|
            0 <= k < splits@.len() ==> user_is(
                #[trigger] res@[k],
                splits@[k].1.external_user_id@,
                text_of(abs_spec(*transaction_amount)),
                "0.00"@,
            ),
        user_is(res@[splits@.len() as int], current_user_external_id@, "0.00"@, text_of(abs_spec(*transaction_amount))),
{
    let abs_amount = transaction_amount.abs();
    let mut users: Vec<ExpenseUser> = Vec::new();
    let mut k: usize = 0;
    while k < splits.len()
        invariant
            k <= splits@.len(),
            abs_amount == abs_spec(*transaction_amount),
            users@.len() == k,
            forall|j: int|
                0 <= j < k ==> user_is(
                    #[trigger] users@[j],
                    splits@[j].1.external_user_id@,
                    text_of(abs_spec(*transaction_amount)),
                    "0.00"@,
                ),
        decreases splits@.len() - k,
    {
        users.push(expense_user(splits[k].1.external_user_id.clone(), decimal_to_string(&abs_amount), owned("0.00")));
        k = k + 1;
    }
    users.push(expense_user(owned(current_user_external_id), owned("0.00"), decimal_to_string(&abs_amount)));
    users
}

/// Whether a share reads as an amount above zero.
pub open spec fn positive_share(s: Seq<char>) -> bool {
    readable_decimal(s) && sign_of(read_decimal(s)) > 0
}

/// The users of an expense who paid (a paid share above zero) and whose
/// owed share is readable.
pub open spec fn paying_positions(users: Seq<ExternalExpenseUser>) -> Seq<int> {
    indices_where(
        users.len() as int,
        |k: int| positive_share(users[k].paid_share@) && readable_decimal(users[k].owed_share@),
    )
}

/// What the payers of an expense owe.
pub open spec fn payer_owed_items(users: Seq<ExternalExpenseUser>) -> Seq<Decimal> {
    let pos = paying_positions(users);
    Seq::new(pos.len(), |j: int| read_decimal(users[pos[j]].owed_share@))
}

/// Whether every split's `|amount|` equals its person's owed share.
pub open spec fn group_participants_match(
    splits: Seq<(TransactionSplit, PersonSplitConfig)>,
    users: Seq<ExternalExpenseUser>,
) -> bool {
    forall|k: int|
        0 <= k < splits.len() ==> match share_of(users, (#[trigger] splits[k]).1.external_user_id@) {
            Some(v) => same_value(abs_spec(splits[k].0.amount), v),
            None => false,
        }
}

/// Whether the local splits agree with an external expense: every split's
/// `|amount|` equals its person's owed share, and the payer's own share
/// (`|amount| - Σ |split|`) equals what the expense's payers owe together.
pub open spec fn group_matches_expense(
    transaction_amount: Decimal,
    splits: Seq<(TransactionSplit, PersonSplitConfig)>,
    expense: ExternalExpenseDetail,
) -> bool {
    let items = payer_owed_items(expense.users@);
    &&& group_participants_match(splits, expense.users@)
    &&& sum_in_range(items)
    &&& same_value(remainder_of(transaction_amount, split_amounts(splits)), total_of(items))
}

/// The owed share of `uid` in `users` (`share_of`).
fn share_in(users: &Vec<ExternalExpenseUser>, uid: &str) -> (res: Option<Decimal>)
    ensures
        res == share_of(users@, uid@),
{
    let mut found: Option<Decimal> = None;
    let mut k: usize = 0;
    while k < users.len()
        invariant
            k <= users@.len(),
            found == external_share(users@, uid@, k as int),
        decreases users@.len() - k,
    {
        if str_eq(users[k].external_user_id.as_str(), uid) {
            match Decimal::parse(users[k].owed_share.as_str()) {
                Some(d) => {
                    found = Some(d);
                },
                None => {},
            }
        }
        k = k + 1;
    }
    found
}

/// Whether a share text reads as an amount above zero.
fn is_positive_share(s: &str) -> (res: bool)
    ensures
        res == positive_share(s@),
{
    match Decimal::parse(s) {
        Some(d) => d.signum() > 0,
        None => false,
    }
}

/// What the payers of an expense owe (`payer_owed_items`).
fn payer_owed_of(users: &Vec<ExternalExpenseUser>) -> (res: Vec<Decimal>)
    ensures
        res@ == payer_owed_items(users@),
{
    let ghost keep = |k: int| positive_share(users@[k].paid_share@) && readable_decimal(users@[k].owed_share@);
    let mut out: Vec<Decimal> = Vec::new();
    let mut k: usize = 0;
    while k < users.len()
        invariant
            k <= users@.len(),
            keep == (|k: int| positive_share(users@[k].paid_share@) && readable_decimal(users@[k].owed_share@)),
            out@.len() == indices_where(k as int, keep).len(),
            forall|j: int|
                0 <= j < out@.len() ==> #[trigger] out@[j] == read_decimal(users@[indices_where(k as int, keep)[j]].owed_share@),
        decreases users@.len() - k,
    {
        if is_positive_share(users[k].paid_share.as_str()) {
            match Decimal::parse(users[k].owed_share.as_str()) {
                Some(d) => {
                    assert(keep(k as int));
                    out.push(d);
                },
                None => {
                    assert(!keep(k as int));
                },
            }
        } else {
            assert(!keep(k as int));
        }
        k = k + 1;
    }
    assert(out@ =~= payer_owed_items(users@));
    out
}

/// Compares local splits with an external expense (`group_matches_expense`).
/// Where what the payers owe adds up beyond the `i128` range, the two do
/// not match.
pub fn compare_splits(
    transaction_amount: &Decimal,
    local_splits: &[(TransactionSplit, PersonSplitConfig)],
    external_expense: &ExternalExpenseDetail,
) -> (res: bool)
    requires
        remainder_fits(*transaction_amount, split_amounts(local_splits@)),
    ensures
        res == group_matches_expense(*transaction_amount, local_splits@, *external_expense),
{
    let users = &external_expense.users;
    let mut k: usize = 0;
    while k < local_splits.len()
        invariant
            k <= local_splits@.len(),
            users@ == external_expense.users@,
            forall|j: int|
                0 <= j < k ==> match share_of(users@, (#[trigger] local_splits@[j]).1.external_user_id@) {
                    Some(v) => same_value(abs_spec(local_splits@[j].0.amount), v),
                    None => false,
                },
            remainder_fits(*transaction_amount, split_amounts(local_splits@)),
        decreases local_splits@.len() - k,
    {
        let pair = &local_splits[k];
        assert(split_amounts(local_splits@)[k as int] == pair.0.amount);
        let local_owed = pair.0.amount.abs();
        match share_in(users, pair.1.external_user_id.as_str()) {
            Some(v) => {
                if !local_owed.same_value_as(&v) {
                    assert(local_splits@[k as int] == *pair);
                    return false;
                }
            },
            None => {
                assert(local_splits@[k as int] == *pair);
                return false;
            },
        }
        k = k + 1;
    }
    let amounts = amounts_of(local_splits);
    let local_payer_share = remainder(transaction_amount, &amounts);
    let owed = payer_owed_of(users);
    match sum(&owed) {
        Some(external_payer_owed) => local_payer_share.same_value_as(&external_payer_owed),
        None => false,
    }
}

/// The first user of an expense, other than the current user, who paid
/// (a paid share above zero).
pub open spec fn other_payer(users: Seq<ExternalExpenseUser>, current: Seq<char>, n: int) -> Option<int>
    decreases n,
{
    if n <= 0 {
        None
    } else {
        match other_payer(users, current, n - 1) {
            Some(k) => Some(k),
            None => if users[n - 1].external_user_id@ != current && positive_share(users[n - 1].paid_share@) {
                Some(n - 1)
            } else {
                None
            },
        }
    }
}

/// The external ID of whoever else paid the expense, or `None` when the
/// current user paid.
pub fn find_external_payer_id(expense: &ExternalExpenseDetail, current_user_external_id: &str) -> (res: Option<String>)
    ensures
        match other_payer(expense.users@, current_user_external_id@, expense.users@.len() as int) {
            Some(k) => res matches Some(id) && id@ == expense.users@[k].external_user_id@,
            None => res is None,
        },
{
    let users = &expense.users;
    let mut k: usize = 0;
    while k < users.len()
        invariant
            k <= users@.len(),
            users@ == expense.users@,
            other_payer(users@, current_user_external_id@, k as int) is None,
        decreases users@.len() - k,
    {
        let u = &users[k];
        if !str_eq(u.external_user_id.as_str(), current_user_external_id) && is_positive_share(u.paid_share.as_str()) {
            proof {
                lemma_other_payer_stable(users@, current_user_external_id@, k + 1, users@.len() as int);
            }
            return Some(u.external_user_id.clone());
        }
        k = k + 1;
    }
    None
}

proof fn lemma_other_payer_stable(users: Seq<ExternalExpenseUser>, current: Seq<char>, j: int, n: int)
    requires
        j <= n,
        other_payer(users, current, j) is Some,
    ensures
        other_payer(users, current, n) == other_payer(users, current, j),
    decreases n - j,
{
    if j < n {
        lemma_other_payer_stable(users, current, j, n - 1);
    }
}

/// Whether someone other than the current user paid the expense.
pub fn is_paid_by_others(expense: &ExternalExpenseDetail, current_user_external_id: &str) -> (res: bool)
    ensures
        res == other_payer(expense.users@, current_user_external_id@, expense.users@.len() as int) is Some,
{
    find_external_payer_id(expense, current_user_external_id).is_some()
}

/// The expense a group is linked to: the first sync record, synced or
/// failed, that names an external expense.
pub open spec fn linked_expense_of(records: Seq<SplitSyncRecord>, n: int) -> Option<Seq<char>>
    decreases n,
{
    if n <= 0 {
        None
    } else {
        match linked_expense_of(records, n - 1) {
            Some(x) => Some(x),
            None => {
                let r = records[n - 1];
                let st = status_of_label(r.sync_status@);
                if st == SyncStatus::Synced || st == SyncStatus::Failed {
                    match r.external_expense_id {
                        Some(id) => Some(id@),
                        None => None,
                    }
                } else {
                    None
                }
            },
        }
    }
}

/// The linked external expense ID of a group, from the sync records of its
/// splits (in split order, each split's records in turn).
pub fn get_linked_expense_id(records: &Vec<SplitSyncRecord>) -> (res: Option<String>)
    ensures
        match res {
            Some(id) => linked_expense_of(records@, records@.len() as int) == Some(id@),
            None => linked_expense_of(records@, records@.len() as int) is None,
        },
{
    let mut k: usize = 0;
    while k < records.len()
        invariant
            k <= records@.len(),
            linked_expense_of(records@, k as int) is None,
        decreases records@.len() - k,
    {
        let r = &records[k];
        let st = r.status();
        if st == SyncStatus::Synced || st == SyncStatus::Failed {
            match &r.external_expense_id {
                Some(id) => {
                    proof {
                        lemma_linked_stable(records@, k + 1, records@.len() as int);
                    }
                    return Some(id.clone());
                },
                None => {},
            }
        }
        k = k + 1;
    }
    None
}

proof fn lemma_linked_stable(records: Seq<SplitSyncRecord>, j: int, n: int)
    requires
        j <= n,
        linked_expense_of(records, j) is Some,
    ensures
        linked_expense_of(records, n) == linked_expense_of(records, j),
    decreases n - j,
{
    if j < n {
        lemma_linked_stable(records, j, n - 1);
    }
}

/// The user ID in provider credentials: `splitwise_user_id`, or else
/// `splitpro_user_id`, as an integer or a string.
pub open spec fn external_user_id_of(credentials: JsonValue) -> Option<Seq<char>> {
    let v = match json_get(credentials, "splitwise_user_id"@) {
        Some(x) => Some(x),
        None => json_get(credentials, "splitpro_user_id"@),
    };
    match v {
        Some(x) => match json_i64(x) {
            Some(i) => Some(int_text(i as int)),
            None => json_str(x),
        },
        None => None,
    }
}

/// The external user ID from provider credentials (`external_user_id_of`).
pub fn extract_external_user_id(credentials: &JsonValue) -> (res: Option<String>)
    ensures
        match res {
            Some(s) => external_user_id_of(*credentials) == Some(s@),
            None => external_user_id_of(*credentials) is None,
        },
{
    let v = match credentials.get("splitwise_user_id") {
        Some(x) => Some(x),
        None => credentials.get("splitpro_user_id"),
    };
    match v {
        Some(x) => match x.as_i64() {
            Some(i) => Some(i64_text(i)),
            None => match x.as_str() {
                Some(s) => Some(owned(s)),
                None => None,
            },
        },
        None => None,
    }
}

/// The current user's external ID and display name from provider
/// credentials: the ID or "unknown", `splitwise_user_name` or "You".
pub fn payer_info(credentials: &JsonValue) -> (res: (String, String))
    ensures
        res.0@ == match external_user_id_of(*credentials) {
            Some(s) => s,
            None => "unknown"@,
        },
        res.1@ == match field_str(*credentials, "splitwise_user_name"@) {
            Some(s) => s,
            None => "You"@,
        },
{
    let id = match extract_external_user_id(credentials) {
        Some(s) => s,
        None => owned("unknown"),
    };
    let name = crate::json::str_field_or(credentials, "splitwise_user_name", "You");
    (id, name)
}

/// A participant of a debt expense, as kept in the debt's metadata.
#[derive(Debug, Clone)]
pub struct ExpenseParticipantInput {
    pub name: String,
    pub external_user_id: Option<String>,
    pub paid_share: String,
    pub owed_share: String,
}

/// A share text read as an amount, or 0 where it does not read.
pub open spec fn share_or_zero(s: Seq<char>) -> Decimal {
    if readable_decimal(s) {
        read_decimal(s)
    } else {
        Decimal { mantissa: 0, scale: 0 }
    }
}

pub open spec fn id_or_empty(o: Option<String>) -> Seq<char> {
    match o {
        Some(s) => s@,
        None => ""@,
    }
}

/// Whether a local participant agrees with the expense: one without an
/// external ID is ignored; one the expense lists owes the same; one the
/// expense does not list owes nothing.
pub open spec fn participant_agrees(p: ExpenseParticipantInput, users: Seq<ExternalExpenseUser>) -> bool {
    let id = id_or_empty(p.external_user_id);
    let local = share_or_zero(p.owed_share@);
    id.len() == 0 || match share_of(users, id) {
        Some(v) => same_value(local, v),
        None => sign_of(local) <= 0,
    }
}

/// Whether a debt transaction agrees with an external expense: its
/// participants (`None` when the metadata has none, which never agrees)
/// each agree, and where both totals read, they are equal.
pub open spec fn debt_matches_expense(
    participants: Option<Seq<ExpenseParticipantInput>>,
    local_total_cost: Option<Seq<char>>,
    expense: ExternalExpenseDetail,
) -> bool {
    match participants {
        None => false,
        Some(ps) => all_participants_agree(ps, expense.users@) && totals_agree(local_total_cost, expense.cost@),
    }
}

pub open spec fn all_participants_agree(ps: Seq<ExpenseParticipantInput>, users: Seq<ExternalExpenseUser>) -> bool {
    forall|k: int| 0 <= k < ps.len() ==> participant_agrees(#[trigger] ps[k], users)
}

/// Where both totals read, they are equal.
pub open spec fn totals_agree(local_total_cost: Option<Seq<char>>, cost: Seq<char>) -> bool {
    match local_total_cost {
        Some(t) => (readable_decimal(t) && readable_decimal(cost)) ==> same_value(read_decimal(t), read_decimal(cost)),
        None => true,
    }
}

pub open spec fn opt_text_of(o: &Option<String>) -> Option<Seq<char>> {
    match o {
        Some(t) => Some(t@),
        None => None,
    }
}

/// A share text as an amount, or 0.
fn share_value(s: &str) -> (res: Decimal)
    ensures
        res == share_or_zero(s@),
{
    match Decimal::parse(s) {
        Some(d) => d,
        None => Decimal::zero(),
    }
}

/// Compares a debt transaction's participants and total with an external
/// expense (`debt_matches_expense`).
pub fn compare_debt_splits(
    participants: &Option<Vec<ExpenseParticipantInput>>,
    local_total_cost: &Option<String>,
    external_expense: &ExternalExpenseDetail,
) -> (res: bool)
    ensures
        res == debt_matches_expense(
            match participants {
                Some(v) => Some(v@),
                None => None,
            },
            opt_text_of(local_total_cost),
            *external_expense,
        ),
{
    let ps = match participants {
        Some(v) => v,
        None => {
            return false;
        },
    };
    let users = &external_expense.users;
    let mut k: usize = 0;
    while k < ps.len()
        invariant
            k <= ps@.len(),
            users@ == external_expense.users@,
            match participants {
                Some(v) => v@ == ps@,
                None => false,
            },
            forall|j: int| 0 <= j < k ==> participant_agrees(#[trigger] ps@[j], users@),
        decreases ps@.len() - k,
    {
        let p = &ps[k];
        let id = match &p.external_user_id {
            Some(s) => s.as_str(),
            None => "",
        };
        if id.unicode_len() > 0 {
            let local_owed = share_value(p.owed_share.as_str());
            match share_in(users, id) {
                Some(v) => {
                    if !local_owed.same_value_as(&v) {
                        assert(!participant_agrees(ps@[k as int], users@));
                        assert(!participant_agrees(ps@[k as int], external_expense.users@));
                        return false;
                    }
                },
                None => {
                    if local_owed.signum() > 0 {
                        assert(!participant_agrees(ps@[k as int], users@));
                        assert(!participant_agrees(ps@[k as int], external_expense.users@));
                        return false;
                    }
                },
            }
        }
        assert(participant_agrees(ps@[k as int], users@));
        k = k + 1;
    }
    match local_total_cost {
        Some(t) => match (Decimal::parse(t.as_str()), Decimal::parse(external_expense.cost.as_str())) {
            (Some(lt), Some(et)) => lt.same_value_as(&et),
            _ => true,
        },
        None => true,
    }
}

/// The total cost a debt's metadata reports, with two decimals, when it is
/// above zero.
pub fn debt_total_cost_text(total_cost: &Decimal) -> (res: Option<String>)
    ensures
        sign_of(*total_cost) > 0 ==> (res matches Some(s) && s@ == decimal_text_2dp(
            total_cost.mantissa as int,
            total_cost.scale as int,
        )),
        sign_of(*total_cost) <= 0 ==> res is None,
{
    if total_cost.signum() > 0 {
        Some(decimal_to_string_2dp(total_cost))
    } else {
        None
    }
}

/// The totals shown for a mismatch: the local total `|amount|`, whether it
/// differs from the expense's cost (a cost that does not read counts as 0),
/// and the message.
pub open spec fn mismatch_message(transaction_amount: Decimal, cost: Seq<char>) -> (bool, Seq<char>) {
    let local = abs_spec(transaction_amount);
    let external = share_or_zero(cost);
    let differ = !same_value(local, external);
    (
        differ,
        if differ {
            "Total amount mismatch: local "@ + text_of(local) + " vs external "@ + cost
        } else {
            "Split mismatch: per-user splits differ"@
        },
    )
}

/// Whether the totals of a mismatch differ, the local total's text, and the
/// message recorded on the sync records.
pub fn mismatch_summary(transaction_amount: &Decimal, expense_cost: &str) -> (res: (bool, String, String))
    requires
        transaction_amount.mantissa != i128::MIN,
    ensures
        res.0 == mismatch_message(*transaction_amount, expense_cost@).0,
        res.1@ == text_of(abs_spec(*transaction_amount)),
        res.2@ == mismatch_message(*transaction_amount, expense_cost@).1,
{
    let local = transaction_amount.abs();
    let external = share_value(expense_cost);
    let differ = !local.same_value_as(&external);
    let local_total = decimal_to_string(&local);
    let message = if differ {
        let mut m = owned("Total amount mismatch: local ");
        push_str(&mut m, local_total.as_str());
        push_str(&mut m, " vs external ");
        push_str(&mut m, expense_cost);
        m
    } else {
        owned("Split mismatch: per-user splits differ")
    };
    (differ, local_total, message)
}

/// Whether `id` is one of `ids`.
pub open spec fn text_listed(ids: Seq<String>, id: Seq<char>) -> bool {
    exists|k: int| 0 <= k < ids.len() && (#[trigger] ids[k])@ == id
}

fn contains_text(ids: &Vec<String>, id: &str) -> (res: bool)
    ensures
        res == text_listed(ids@, id@),
{
    let mut k: usize = 0;
    while k < ids.len()
        invariant
            k <= ids@.len(),
            forall|j: int| 0 <= j < k ==> (#[trigger] ids@[j])@ != id@,
        decreases ids@.len() - k,
    {
        if str_eq(ids[k].as_str(), id) {
            return true;
        }
        k = k + 1;
    }
    false
}

/// Whether an expense found by a search is a candidate for a transaction of
/// `amount`: its cost reads as `|amount|` and no split links to it yet.
pub open spec fn is_candidate(e: ExternalExpenseDetail, amount: Decimal, linked: Seq<String>) -> bool {
    readable_decimal(e.cost@) && same_value(read_decimal(e.cost@), abs_spec(amount)) && !text_listed(
        linked,
        e.external_expense_id@,
    )
}

/// The expenses of a search that may be the transaction's (`is_candidate`),
/// in order.
pub fn select_split_matches(
    expenses: Vec<ExternalExpenseDetail>,
    transaction_amount: &Decimal,
    linked_expense_ids: &Vec<String>,
) -> (res: Vec<ExternalExpenseDetail>)
    requires
        transaction_amount.mantissa != i128::MIN,
    ensures
        res@ == indices_where(
            expenses@.len() as int,
            |k: int| is_candidate(expenses@[k], *transaction_amount, linked_expense_ids@),
        ).map_values(|k: int| expenses@[k]),
{
    let ghost all = expenses@;
    let ghost keep = |k: int| is_candidate(all[k], *transaction_amount, linked_expense_ids@);
    let tx_abs_amount = transaction_amount.abs();
    let mut rest = expenses;
    let mut out: Vec<ExternalExpenseDetail> = Vec::new();
    let ghost mut k: int = 0;
    while rest.len() > 0
        invariant
            0 <= k <= all.len(),
            rest@ == all.subrange(k, all.len() as int),
            tx_abs_amount == abs_spec(*transaction_amount),
            keep == (|k: int| is_candidate(all[k], *transaction_amount, linked_expense_ids@)),
            out@ == indices_where(k, keep).map_values(|j: int| all[j]),
        decreases rest@.len(),
    {
        let e = rest.remove(0);
        assert(e == all[k]);
        let cost_matches = match Decimal::parse(e.cost.as_str()) {
            Some(c) => c.same_value_as(&tx_abs_amount),
            None => false,
        };
        if cost_matches && !contains_text(linked_expense_ids, e.external_expense_id.as_str()) {
            assert(keep(k));
            out.push(e);
            assert(out@ =~= indices_where(k + 1, keep).map_values(|j: int| all[j]));
        } else {
            assert(!keep(k));
        }
        proof {
            k = k + 1;
        }
    }
    out
}

/// What a sync does with the expenses a search found.
#[derive(Debug, Clone, Copy, PartialEq, Eq, Structural)]
pub enum CandidateChoice {
    /// Nothing found: create a new expense.
    Create,
    /// The expense at this position matches: link it.
    Link(usize),
    /// Expenses were found but none matches: report a mismatch with the
    /// one at this position.
    Mismatch(usize),
}

/// Chooses among the expenses a search found for a transaction: create one
/// when there is none, link the first that matches the splits, or report a
/// mismatch with the first.
pub fn choose_split_candidate(
    transaction_amount: &Decimal,
    splits: &[(TransactionSplit, PersonSplitConfig)],
    candidates: &[ExternalExpenseDetail],
) -> (res: CandidateChoice)
    requires
        remainder_fits(*transaction_amount, split_amounts(splits@)),
    ensures
        candidates@.len() == 0 ==> res == CandidateChoice::Create,
        candidates@.len() > 0 ==> match first_where(
            candidates@.len() as int,
            |k: int| group_matches_expense(*transaction_amount, splits@, candidates@[k]),
        ) {
            Some(k) => res == CandidateChoice::Link(k as usize),
            None => res == CandidateChoice::Mismatch(0),
        },
{
    if candidates.len() == 0 {
        return CandidateChoice::Create;
    }
    let ghost p = |k: int| group_matches_expense(*transaction_amount, splits@, candidates@[k]);
    let mut k: usize = 0;
    while k < candidates.len()
        invariant
            k <= candidates@.len(),
            p == (|k: int| group_matches_expense(*transaction_amount, splits@, candidates@[k])),
            remainder_fits(*transaction_amount, split_amounts(splits@)),
            first_where(k as int, p) is None,
        decreases candidates@.len() - k,
    {
        if compare_splits(transaction_amount, splits, &candidates[k]) {
            proof {
                lemma_first_where(k + 1, candidates@.len() as int, p);
            }
            return CandidateChoice::Link(k);
        }
        k = k + 1;
    }
    CandidateChoice::Mismatch(0)
}

pub open spec fn opt_participants(o: &Option<Vec<ExpenseParticipantInput>>) -> Option<Seq<ExpenseParticipantInput>> {
    match o {
        Some(v) => Some(v@),
        None => None,
    }
}

/// The first expense a debt transaction matches, if any.
pub fn choose_debt_candidate(
    participants: &Option<Vec<ExpenseParticipantInput>>,
    local_total_cost: &Option<String>,
    candidates: &[ExternalExpenseDetail],
) -> (res: Option<usize>)
    ensures
        match res {
            Some(k) => first_where(
                candidates@.len() as int,
                |j: int| debt_matches_expense(opt_participants(participants), opt_text_of(local_total_cost), candidates@[j]),
            ) == Some(k as int),
            None => first_where(
                candidates@.len() as int,
                |j: int| debt_matches_expense(opt_participants(participants), opt_text_of(local_total_cost), candidates@[j]),
            ) is None,
        },
{
    let ghost p = |j: int| debt_matches_expense(opt_participants(participants), opt_text_of(local_total_cost), candidates@[j]);
    let mut k: usize = 0;
    while k < candidates.len()
        invariant
            k <= candidates@.len(),
            p == (|j: int| debt_matches_expense(opt_participants(participants), opt_text_of(local_total_cost), candidates@[j])),
            first_where(k as int, p) is None,
        decreases candidates@.len() - k,
    {
        if compare_debt_splits(participants, local_total_cost, &candidates[k]) {
            proof {
                lemma_first_where(k + 1, candidates@.len() as int, p);
            }
            return Some(k);
        }
        k = k + 1;
    }
    None
}

/// The expenses of a search that no split links to yet, in order.
pub fn exclude_linked(expenses: Vec<ExternalExpenseDetail>, linked_expense_ids: &Vec<String>) -> (res: Vec<ExternalExpenseDetail>)
    ensures
        res@ == indices_where(
            expenses@.len() as int,
            |k: int| !text_listed(linked_expense_ids@, expenses@[k].external_expense_id@),
        ).map_values(|k: int| expenses@[k]),
{
    let ghost all = expenses@;
    let ghost keep = |k: int| !text_listed(linked_expense_ids@, all[k].external_expense_id@);
    let mut rest = expenses;
    let mut out: Vec<ExternalExpenseDetail> = Vec::new();
    let ghost mut k: int = 0;
    while rest.len() > 0
        invariant
            0 <= k <= all.len(),
            rest@ == all.subrange(k, all.len() as int),
            keep == (|k: int| !text_listed(linked_expense_ids@, all[k].external_expense_id@)),
            out@ == indices_where(k, keep).map_values(|j: int| all[j]),
        decreases rest@.len(),
    {
        let e = rest.remove(0);
        assert(e == all[k]);
        if !contains_text(linked_expense_ids, e.external_expense_id.as_str()) {
            assert(keep(k));
            out.push(e);
            assert(out@ =~= indices_where(k + 1, keep).map_values(|j: int| all[j]));
        } else {
            assert(!keep(k));
        }
        proof {
            k = k + 1;
        }
    }
    out
}

/// A retry of a failed sync is allowed below `MAX_RETRY_COUNT` failures;
/// the retry then runs with the count raised by one.
pub fn next_retry_count(retry_count: i32) -> (res: Result<i32, ApiError>)
    ensures
        retry_count >= MAX_RETRY_COUNT ==> (res matches Err(e) && api_error_view(e) == ApiErrorView::BadRequest(
            "Maximum retry count exceeded"@,
        )),
        retry_count < MAX_RETRY_COUNT ==> res == Ok::<i32, ApiError>((retry_count + 1) as i32),
{
    if retry_count >= MAX_RETRY_COUNT {
        Err(ApiError::BadRequest(owned("Maximum retry count exceeded")))
    } else {
        Ok(retry_count + 1)
    }
}

/// What happens to a provider's expense when a split is deleted.
#[derive(Debug, Clone)]
pub enum DeletionStep {
    /// Splits remain for the provider: update its expense with them.
    UpdateGroup { provider_id: u128 },
    /// No split remains: delete the expense.
    DeleteExpense { provider_id: u128, external_expense_id: String },
    /// No split remains and the record names no expense.
    Nothing,
}

/// Whether provider `pid` has a group among `groups`.
pub open spec fn has_group(groups: Seq<(u128, Vec<(TransactionSplit, PersonSplitConfig)>)>, pid: u128) -> bool {
    exists|g: int| 0 <= g < groups.len() && (#[trigger] groups[g]).0 == pid
}

/// The step for the sync record of a deleted split, given the groups of
/// the splits that remain.
pub open spec fn deletion_step_for(
    r: SplitSyncRecord,
    groups: Seq<(u128, Vec<(TransactionSplit, PersonSplitConfig)>)>,
    step: DeletionStep,
) -> bool {
    if has_group(groups, r.split_provider_id) {
        step == DeletionStep::UpdateGroup { provider_id: r.split_provider_id }
    } else {
        match r.external_expense_id {
            Some(id) => step matches DeletionStep::DeleteExpense { provider_id, external_expense_id } && provider_id
                == r.split_provider_id && external_expense_id@ == id@,
            None => step is Nothing,
        }
    }
}

/// The steps after a split is deleted: one per sync record of the deleted
/// split, in order (each record is then deleted too).
pub fn plan_split_deletion(
    deleted_records: &Vec<SplitSyncRecord>,
    remaining: &Vec<(u128, Vec<(TransactionSplit, PersonSplitConfig)>)>,
) -> (res: Vec<DeletionStep>)
    ensures
        res@.len() == deleted_records@.len(),
        forall|k: int| 0 <= k < res@.len() ==> deletion_step_for(deleted_records@[k], remaining@, #[trigger] res@[k]),
{
    let mut steps: Vec<DeletionStep> = Vec::new();
    let mut k: usize = 0;
    while k < deleted_records.len()
        invariant
            k <= deleted_records@.len(),
            steps@.len() == k,
            forall|j: int| 0 <= j < k ==> deletion_step_for(deleted_records@[j], remaining@, #[trigger] steps@[j]),
        decreases deleted_records@.len() - k,
    {
        let r = &deleted_records[k];
        let step = match find_group(remaining, r.split_provider_id) {
            Some(g) => DeletionStep::UpdateGroup { provider_id: r.split_provider_id },
            None => match &r.external_expense_id {
                Some(id) => DeletionStep::DeleteExpense { provider_id: r.split_provider_id, external_expense_id: id.clone() },
                None => DeletionStep::Nothing,
            },
        };
        steps.push(step);
        k = k + 1;
    }
    steps
}

/// The first user of an expense with external ID `id`.
pub open spec fn first_user_with(users: Seq<ExternalExpenseUser>, id: Seq<char>) -> Option<int> {
    first_where(users.len() as int, |k: int| users[k].external_user_id@ == id)
}

/// The first user of an expense with external ID `id` (`first_user_with`).
fn find_user(users: &Vec<ExternalExpenseUser>, id: &str) -> (res: Option<usize>)
    ensures
        match res {
            Some(k) => k < users@.len() && first_user_with(users@, id@) == Some(k as int),
            None => first_user_with(users@, id@) is None,
        },
{
    let ghost p = |k: int| users@[k].external_user_id@ == id@;
    let mut k: usize = 0;
    while k < users.len()
        invariant
            k <= users@.len(),
            p == (|k: int| users@[k].external_user_id@ == id@),
            first_where(k as int, p) is None,
        decreases users@.len() - k,
    {
        if str_eq(users[k].external_user_id.as_str(), id) {
            proof {
                lemma_first_where(k + 1, users@.len() as int, p);
            }
            return Some(k);
        }
        k = k + 1;
    }
    None
}

/// How an expense found on the provider is brought into the books.
#[derive(Debug, Clone)]
pub enum ExpenseImport {
    /// A local transaction already links to it.
    AlreadyLinked,
    /// Someone else paid and the current user owes nothing.
    NotApplicable,
    /// Someone else paid: record a debt of `user_owed_share` to them.
    Debt { payer_external_id: String, payer_first_name: String, payer_last_name: String, user_owed_share: Decimal },
    /// The current user paid: record a transaction with splits.
    Regular,
}

/// Decides how an external expense is imported: nothing when a local
/// transaction already links to it; a debt when someone else paid (its
/// amount the current user's owed share, 0 when absent or unreadable;
/// nothing to import when that is 0); a regular transaction when the
/// current user paid.
pub fn plan_expense_import(
    expense: &ExternalExpenseDetail,
    current_user_external_id: &str,
    already_linked: bool,
) -> (res: ExpenseImport)
    ensures
        already_linked ==> res is AlreadyLinked,
        !already_linked ==> match other_payer(expense.users@, current_user_external_id@, expense.users@.len() as int) {
            None => res is Regular,
            Some(k) => {
                let owed = match first_user_with(expense.users@, current_user_external_id@) {
                    Some(c) => share_or_zero(expense.users@[c].owed_share@),
                    None => Decimal { mantissa: 0, scale: 0 },
                };
                let payer_id = expense.users@[k].external_user_id@;
                if sign_of(owed) == 0 {
                    res is NotApplicable
                } else {
                    res matches ExpenseImport::Debt { payer_external_id, payer_first_name, payer_last_name, user_owed_share }
                        && payer_external_id@ == payer_id && user_owed_share == owed && match first_user_with(
                        expense.users@,
                        payer_id,
                    ) {
                        Some(p) => payer_first_name@ == expense.users@[p].first_name@ && payer_last_name@
                            == expense.users@[p].last_name@,
                        None => payer_first_name@ == "Unknown"@ && payer_last_name@ == ""@,
                    }
                }
            },
        },
{
    if already_linked {
        return ExpenseImport::AlreadyLinked;
    }
    let payer = match find_external_payer_id(expense, current_user_external_id) {
        Some(p) => p,
        None => {
            return ExpenseImport::Regular;
        },
    };
    let users = &expense.users;
    let owed = match find_user(users, current_user_external_id) {
        Some(c) => share_value(users[c].owed_share.as_str()),
        None => Decimal::zero(),
    };
    if owed.is_zero() {
        return ExpenseImport::NotApplicable;
    }
    let (first, last) = match find_user(users, payer.as_str()) {
        Some(p) => (users[p].first_name.clone(), users[p].last_name.clone()),
        None => (owned("Unknown"), owned("")),
    };
    ExpenseImport::Debt { payer_external_id: payer, payer_first_name: first, payer_last_name: last, user_owed_share: owed }
}

/// The users of a debt expense from its recorded participants: the payer
/// (`is_payer`, decided from the participant's paid share) paid the whole
/// cost, the others "0.00"; each owes their recorded share. The cost is the
/// total with two decimals.
pub fn debt_participant_users(
    participants: &Vec<ExpenseParticipantInput>,
    is_payer: &Vec<bool>,
    total_cost: &Decimal,
) -> (res: (Vec<ExpenseUser>, String))
    requires
        is_payer@.len() == participants@.len(),
    ensures
        res.1@ == decimal_text_2dp(total_cost.mantissa as int, total_cost.scale as int),
        res.0@.len() == participants@.len(),
        forall|k: int|
            0 <= k < participants@.len() ==> user_is(
                #[trigger] res.0@[k],
                id_or_empty(participants@[k].external_user_id),
                if is_payer@[k] { res.1@ } else { "0.00"@ },
                participants@[k].owed_share@,
            ),
{
    let cost = decimal_to_string_2dp(total_cost);
    let mut users: Vec<ExpenseUser> = Vec::new();
    let mut k: usize = 0;
    while k < participants.len()
        invariant
            k <= participants@.len(),
            is_payer@.len() == participants@.len(),
            users@.len() == k,
            forall|j: int|
                0 <= j < k ==> user_is(
                    #[trigger] users@[j],
                    id_or_empty(participants@[j].external_user_id),
                    if is_payer@[j] { cost@ } else { "0.00"@ },
                    participants@[j].owed_share@,
                ),
        decreases participants@.len() - k,
    {
        let p = &participants[k];
        let id = match &p.external_user_id {
            Some(s) => s.clone(),
            None => owned(""),
        };
        let paid = if is_payer[k] {
            cost.clone()
        } else {
            owned("0.00")
        };
        users.push(expense_user(id, paid, p.owed_share.clone()));
        k = k + 1;
    }
    (users, cost)
}

/// `v` is an object with exactly the string members `keys` holding
/// `values`, in that order.
pub open spec fn string_object(v: JsonValue, keys: Seq<Seq<char>>, values: Seq<Seq<char>>) -> bool {
    match v {
        JsonValue::Object(m) => m@.len() == keys.len() && keys.len() == values.len() && forall|i: int|
            0 <= i < keys.len() ==> string_member_is(#[trigger] m@[i], keys[i], values[i]),
        _ => false,
    }
}

/// `m` is the member `key` holding the string `value`.
pub open spec fn string_member_is(m: JsonMember, key: Seq<char>, value: Seq<char>) -> bool {
    m.key@ == key && match m.value {
        JsonValue::String(t) => t@ == value,
        _ => false,
    }
}

fn string_member(key: &str, value: &str) -> (res: JsonMember)
    ensures
        string_member_is(res, key@, value@),
{
    JsonMember { key: owned(key), value: JsonValue::String(owned(value)) }
}

/// The shares of a debt's participants as a mismatch answer lists them
/// locally.
pub fn debt_local_shares(participants: &Vec<ExpenseParticipantInput>) -> (res: Vec<JsonValue>)
    ensures
        res@.len() == participants@.len(),
        forall|k: int|
            0 <= k < participants@.len() ==> string_object(
                #[trigger] res@[k],
                seq!["external_user_id"@, "person_name"@, "owed_share"@, "paid_share"@],
                seq![
                    id_or_empty(participants@[k].external_user_id),
                    participants@[k].name@,
                    participants@[k].owed_share@,
                    participants@[k].paid_share@,
                ],
            ),
{
    let mut out: Vec<JsonValue> = Vec::new();
    let mut k: usize = 0;
    while k < participants.len()
        invariant
            k <= participants@.len(),
            out@.len() == k,
            forall|j: int|
                0 <= j < k ==> string_object(
                    #[trigger] out@[j],
                    seq!["external_user_id"@, "person_name"@, "owed_share"@, "paid_share"@],
                    seq![
                        id_or_empty(participants@[j].external_user_id),
                        participants@[j].name@,
                        participants@[j].owed_share@,
                        participants@[j].paid_share@,
                    ],
                ),
        decreases participants@.len() - k,
    {
        let p = &participants[k];
        let id = match &p.external_user_id {
            Some(x) => x.as_str(),
            None => "",
        };
        proof {
            reveal_strlit("");
        }
        let mut m: Vec<JsonMember> = Vec::new();
        m.push(string_member("external_user_id", id));
        m.push(string_member("person_name", p.name.as_str()));
        m.push(string_member("owed_share", p.owed_share.as_str()));
        m.push(string_member("paid_share", p.paid_share.as_str()));
        let v = JsonValue::Object(m);
        assert(string_object(
            v,
            seq!["external_user_id"@, "person_name"@, "owed_share"@, "paid_share"@],
            seq![id_or_empty(p.external_user_id), p.name@, p.owed_share@, p.paid_share@],
        )) by {
            let keys = seq!["external_user_id"@, "person_name"@, "owed_share"@, "paid_share"@];
            let vals = seq![id_or_empty(p.external_user_id), p.name@, p.owed_share@, p.paid_share@];
            assert forall|i: int| 0 <= i < keys.len() implies string_member_is(#[trigger] m@[i], keys[i], vals[i]) by {}
        }
        out.push(v);
        k = k + 1;
    }
    out
}

/// The shares of an external expense's users as a mismatch answer lists
/// them.
pub fn external_shares(users: &Vec<ExternalExpenseUser>) -> (res: Vec<JsonValue>)
    ensures
        res@.len() == users@.len(),
        forall|k: int|
            0 <= k < users@.len() ==> string_object(
                #[trigger] res@[k],
                seq!["external_user_id"@, "first_name"@, "last_name"@, "paid_share"@, "owed_share"@],
                seq![
                    users@[k].external_user_id@,
                    users@[k].first_name@,
                    users@[k].last_name@,
                    users@[k].paid_share@,
                    users@[k].owed_share@,
                ],
            ),
{
    let mut out: Vec<JsonValue> = Vec::new();
    let mut k: usize = 0;
    while k < users.len()
        invariant
            k <= users@.len(),
            out@.len() == k,
            forall|j: int|
                0 <= j < k ==> string_object(
                    #[trigger] out@[j],
                    seq!["external_user_id"@, "first_name"@, "last_name"@, "paid_share"@, "owed_share"@],
                    seq![
                        users@[j].external_user_id@,
                        users@[j].first_name@,
                        users@[j].last_name@,
                        users@[j].paid_share@,
                        users@[j].owed_share@,
                    ],
                ),
        decreases users@.len() - k,
    {
        let u = &users[k];
        let mut m: Vec<JsonMember> = Vec::new();
        m.push(string_member("external_user_id", u.external_user_id.as_str()));
        m.push(string_member("first_name", u.first_name.as_str()));
        m.push(string_member("last_name", u.last_name.as_str()));
        m.push(string_member("paid_share", u.paid_share.as_str()));
        m.push(string_member("owed_share", u.owed_share.as_str()));
        let v = JsonValue::Object(m);
        assert(string_object(
            v,
            seq!["external_user_id"@, "first_name"@, "last_name"@, "paid_share"@, "owed_share"@],
            seq![u.external_user_id@, u.first_name@, u.last_name@, u.paid_share@, u.owed_share@],
        )) by {
            let keys = seq!["external_user_id"@, "first_name"@, "last_name"@, "paid_share"@, "owed_share"@];
            let vals = seq![u.external_user_id@, u.first_name@, u.last_name@, u.paid_share@, u.owed_share@];
            assert forall|i: int| 0 <= i < keys.len() implies string_member_is(#[trigger] m@[i], keys[i], vals[i]) by {}
        }
        out.push(v);
        k = k + 1;
    }
    out
}

/// The name of person `id` among the people the application loaded: that of
/// the first listed with the ID (IDs are unique there).
pub open spec fn person_name_of(people: Seq<(u128, String)>, id: u128) -> Option<Seq<char>> {
    match first_where(people.len() as int, has_id(people, id)) {
        Some(k) => Some(people[k].1@),
        None => None,
    }
}

/// The positions of the people with ID `id`.
pub open spec fn has_id(people: Seq<(u128, String)>, id: u128) -> spec_fn(int) -> bool {
    |k: int| people[k].0 == id
}

/// The name a split's person is shown with: the loaded name, or else
/// "User " and the person's external ID.
pub open spec fn shown_name(people: Seq<(u128, String)>, split: (TransactionSplit, PersonSplitConfig)) -> Seq<char> {
    match person_name_of(people, split.0.person_id) {
        Some(n) => n,
        None => "User "@ + split.1.external_user_id@,
    }
}

fn find_person_name(people: &Vec<(u128, String)>, id: u128) -> (res: Option<&String>)
    ensures
        match res {
            Some(n) => person_name_of(people@, id) == Some(n@),
            None => person_name_of(people@, id) is None,
        },
{
    let ghost p = has_id(people@, id);
    let mut k: usize = 0;
    while k < people.len()
        invariant
            k <= people@.len(),
            p == has_id(people@, id),
            first_where(k as int, p) is None,
        decreases people@.len() - k,
    {
        if people[k].0 == id {
            proof {
                lemma_first_where(k + 1, people@.len() as int, p);
            }
            return Some(&people[k].1);
        }
        k = k + 1;
    }
    None
}

/// The shares of a transaction paid by the current user as a sync answer
/// lists them locally: first the payer, who owes what the splits leave
/// (`|amount| - Σ |split|`), then each split's person, who owes `|split|`.
pub fn local_group_shares(
    payer_external_id: &str,
    payer_name: &str,
    transaction_amount: &Decimal,
    splits: &[(TransactionSplit, PersonSplitConfig)],
    people: &Vec<(u128, String)>,
) -> (res: Vec<JsonValue>)
    requires
        remainder_fits(*transaction_amount, split_amounts(splits@)),
    ensures
        res@.len() == splits@.len() + 1,
        string_object(
            res@[0],
            seq!["external_user_id"@, "person_name"@, "owed_share"@],
            seq![
                payer_external_id@,
                payer_name@,
                text_of(remainder_of(*transaction_amount, split_amounts(splits@))),
            ],
        ),
        forall|k: int|
            0 <= k < splits@.len() ==> string_object(
                #[trigger] res@[k + 1],
                seq!["external_user_id"@, "person_name"@, "owed_share"@],
                seq![
                    splits@[k].1.external_user_id@,
                    shown_name(people@, splits@[k]),
                    text_of(abs_spec(splits@[k].0.amount)),
                ],
            ),
{
    let amounts = amounts_of(splits);
    let payer_share = decimal_to_string(&remainder(transaction_amount, &amounts));
    let mut out: Vec<JsonValue> = Vec::new();
    let mut first: Vec<JsonMember> = Vec::new();
    first.push(string_member("external_user_id", payer_external_id));
    first.push(string_member("person_name", payer_name));
    first.push(string_member("owed_share", payer_share.as_str()));
    let head = JsonValue::Object(first);
    assert(string_object(
        head,
        seq!["external_user_id"@, "person_name"@, "owed_share"@],
        seq![payer_external_id@, payer_name@, payer_share@],
    )) by {
        let keys = seq!["external_user_id"@, "person_name"@, "owed_share"@];
        let vals = seq![payer_external_id@, payer_name@, payer_share@];
        assert forall|i: int| 0 <= i < keys.len() implies string_member_is(#[trigger] first@[i], keys[i], vals[i]) by {}
    }
    out.push(head);
    let mut k: usize = 0;
    while k < splits.len()
        invariant
            k <= splits@.len(),
            remainder_fits(*transaction_amount, split_amounts(splits@)),
            out@.len() == k + 1,
            string_object(
                out@[0],
                seq!["external_user_id"@, "person_name"@, "owed_share"@],
                seq![
                    payer_external_id@,
                    payer_name@,
                    text_of(remainder_of(*transaction_amount, split_amounts(splits@))),
                ],
            ),
            forall|j: int|
                0 <= j < k ==> string_object(
                    #[trigger] out@[j + 1],
                    seq!["external_user_id"@, "person_name"@, "owed_share"@],
                    seq![
                        splits@[j].1.external_user_id@,
                        shown_name(people@, splits@[j]),
                        text_of(abs_spec(splits@[j].0.amount)),
                    ],
                ),
        decreases splits@.len() - k,
    {
        let pair = &splits[k];
        assert(split_amounts(splits@)[k as int] == pair.0.amount);
        let name = match find_person_name(people, pair.0.person_id) {
            Some(n) => n.clone(),
            None => {
                let mut n = owned("User ");
                push_str(&mut n, pair.1.external_user_id.as_str());
                n
            },
        };
        let owed = decimal_to_string(&pair.0.amount.abs());
        let mut m: Vec<JsonMember> = Vec::new();
        m.push(string_member("external_user_id", pair.1.external_user_id.as_str()));
        m.push(string_member("person_name", name.as_str()));
        m.push(string_member("owed_share", owed.as_str()));
        let v = JsonValue::Object(m);
        assert(string_object(
            v,
            seq!["external_user_id"@, "person_name"@, "owed_share"@],
            seq![pair.1.external_user_id@, name@, owed@],
        )) by {
            let keys = seq!["external_user_id"@, "person_name"@, "owed_share"@];
            let vals = seq![pair.1.external_user_id@, name@, owed@];
            assert forall|i: int| 0 <= i < keys.len() implies string_member_is(#[trigger] m@[i], keys[i], vals[i]) by {}
        }
        out.push(v);
        k = k + 1;
    }
    out
}

/// Whether a user with ID `id` paid part of an expense (a paid share above
/// zero).
pub open spec fn is_payer_id(users: Seq<ExternalExpenseUser>, id: Seq<char>) -> bool {
    exists|j: int|
        0 <= j < users.len() && (#[trigger] users[j]).external_user_id@ == id && positive_share(users[j].paid_share@)
}

/// The positions of users who paid nothing and owe an amount above zero.
pub open spec fn owing_user(users: Seq<ExternalExpenseUser>) -> spec_fn(int) -> bool {
    |k: int| !is_payer_id(users, users[k].external_user_id@) && positive_share(users[k].owed_share@)
}

/// The current user's share of a debt expense: the owed share of the first
/// user who paid nothing and owes something.
pub open spec fn debtor_share(users: Seq<ExternalExpenseUser>) -> Option<Decimal> {
    match first_where(users.len() as int, owing_user(users)) {
        Some(k) => Some(read_decimal(users[k].owed_share@)),
        None => None,
    }
}

/// A user's full name: first and last name, trimmed.
pub open spec fn full_name(u: ExternalExpenseUser) -> Seq<char> {
    trimmed(u.first_name@ + " "@ + u.last_name@)
}

/// How a debt transaction's details follow its expense.
#[derive(Debug)]
pub struct DebtMetadataUpdate {
    /// The expense's users as recorded participants
    pub participants: Vec<JsonValue>,
    /// The expense's cost, 0 where it does not read as a number
    pub total_cost: Decimal,
    /// The transaction's new amount, where the current user's share differs
    pub new_amount: Option<Decimal>,
}

fn payer_listed(users: &Vec<ExternalExpenseUser>, id: &str) -> (res: bool)
    ensures
        res == is_payer_id(users@, id@),
{
    let mut k: usize = 0;
    while k < users.len()
        invariant
            k <= users@.len(),
            forall|j: int|
                0 <= j < k ==> !((#[trigger] users@[j]).external_user_id@ == id@ && positive_share(users@[j].paid_share@)),
        decreases users@.len() - k,
    {
        if str_eq(users[k].external_user_id.as_str(), id) && is_positive_share(users[k].paid_share.as_str()) {
            return true;
        }
        k = k + 1;
    }
    false
}

fn find_debtor_share(users: &Vec<ExternalExpenseUser>) -> (res: Option<Decimal>)
    ensures
        res == debtor_share(users@),
        res matches Some(d) ==> d.mantissa > 0,
{
    let ghost p = owing_user(users@);
    let mut k: usize = 0;
    while k < users.len()
        invariant
            k <= users@.len(),
            p == owing_user(users@),
            first_where(k as int, p) is None,
        decreases users@.len() - k,
    {
        if !payer_listed(users, users[k].external_user_id.as_str()) {
            match Decimal::parse(users[k].owed_share.as_str()) {
                Some(d) => {
                    if d.signum() > 0 {
                        proof {
                            lemma_first_where(k + 1, users@.len() as int, p);
                        }
                        return Some(d);
                    }
                },
                None => {},
            }
        }
        k = k + 1;
    }
    None
}

/// The details of a debt transaction taken from its expense: the expense's
/// users as participants (full name, external ID, paid and owed shares), the
/// cost as the total (0 where it does not read as a number), and, where the
/// current user's share (`debtor_share`) differs from `|current_amount|`, the
/// new amount: that share, negated.
pub fn debt_metadata_from_expense(expense: &ExternalExpenseDetail, current_amount: &Decimal) -> (res: DebtMetadataUpdate)
    requires
        current_amount.mantissa != i128::MIN,
    ensures
        res.participants@.len() == expense.users@.len(),
        forall|k: int|
            0 <= k < expense.users@.len() ==> participant_record(#[trigger] res.participants@[k], expense.users@[k]),
        res.total_cost == share_or_zero(expense.cost@),
        match debtor_share(expense.users@) {
            Some(owed) => if same_value(abs_spec(*current_amount), owed) {
                res.new_amount is None
            } else {
                match res.new_amount {
                    Some(n) => n.mantissa == -owed.mantissa && n.scale == owed.scale,
                    None => false,
                }
            },
            None => res.new_amount is None,
        },
{
    let users = &expense.users;
    let participants = expense_participants(users);
    let total_cost = share_value(expense.cost.as_str());
    let new_amount = match find_debtor_share(users) {
        Some(owed) => if current_amount.abs().same_value_as(&owed) {
            None
        } else {
            Some(owed.neg())
        },
        None => None,
    };
    DebtMetadataUpdate { participants, total_cost, new_amount }
}

/// `v` is user `u` as a recorded participant of a debt: full name, external
/// ID, paid and owed shares.
pub open spec fn participant_record(v: JsonValue, u: ExternalExpenseUser) -> bool {
    string_object(
        v,
        seq!["name"@, "external_user_id"@, "paid_share"@, "owed_share"@],
        seq![full_name(u), u.external_user_id@, u.paid_share@, u.owed_share@],
    )
}

/// The users of an expense as the recorded participants of a debt.
pub fn expense_participants(users: &Vec<ExternalExpenseUser>) -> (res: Vec<JsonValue>)
    ensures
        res@.len() == users@.len(),
        forall|k: int| 0 <= k < users@.len() ==> participant_record(#[trigger] res@[k], users@[k]),
{
    let mut participants: Vec<JsonValue> = Vec::new();
    let mut k: usize = 0;
    while k < users.len()
        invariant
            k <= users@.len(),
            participants@.len() == k,
            forall|j: int| 0 <= j < k ==> participant_record(#[trigger] participants@[j], users@[j]),
        decreases users@.len() - k,
    {
        let u = &users[k];
        let mut joined = u.first_name.clone();
        push_str(&mut joined, " ");
        push_str(&mut joined, u.last_name.as_str());
        let name = trim(joined.as_str());
        let mut m: Vec<JsonMember> = Vec::new();
        m.push(string_member("name", name.as_str()));
        m.push(string_member("external_user_id", u.external_user_id.as_str()));
        m.push(string_member("paid_share", u.paid_share.as_str()));
        m.push(string_member("owed_share", u.owed_share.as_str()));
        let v = JsonValue::Object(m);
        assert(participant_record(v, *u)) by {
            let keys = seq!["name"@, "external_user_id"@, "paid_share"@, "owed_share"@];
            let vals = seq![name@, u.external_user_id@, u.paid_share@, u.owed_share@];
            assert forall|i: int| 0 <= i < keys.len() implies string_member_is(#[trigger] m@[i], keys[i], vals[i]) by {}
        }
        participants.push(v);
        k = k + 1;
    }
    participants
}

/// The date of an imported expense: its text read as RFC 3339, else as a
/// day (`%Y-%m-%d`) at midnight UTC, else the current time.
pub open spec fn imported_date(text: Seq<char>, now: Timestamp) -> Timestamp {
    match parsed_rfc3339(text) {
        Some(t) => t,
        None => match date_midnight(text) {
            Some(secs) => Timestamp { seconds: secs as i64, nanos: 0 },
            None => now,
        },
    }
}

/// Reads the date of an imported expense (`imported_date`).
pub fn expense_date(text: &str, now: Timestamp) -> (res: Timestamp)
    ensures
        res == imported_date(text@, now),
{
    match parse_rfc3339(text) {
        Some(t) => t,
        None => match parse_date_midnight(text) {
            Some(secs) => Timestamp { seconds: secs, nanos: 0 },
            None => now,
        },
    }
}

/// `-|d|`.
pub open spec fn neg_abs(d: Decimal) -> Decimal {
    Decimal {
        mantissa: if d.mantissa <= 0 {
            d.mantissa
        } else {
            (-d.mantissa) as i128
        },
        scale: d.scale,
    }
}

fn negated_abs(d: &Decimal) -> (res: Decimal)
    ensures
        res == neg_abs(*d),
{
    if d.mantissa <= 0 {
        *d
    } else {
        Decimal { mantissa: -d.mantissa, scale: d.scale }
    }
}

/// The note on a transaction imported from an expense.
pub open spec fn imported_notes(expense_id: Seq<char>) -> Seq<char> {
    "Imported from Splitwise (expense #"@ + expense_id + ")"@
}

/// A transaction an external expense becomes.
#[derive(Debug, Clone)]
pub struct ImportedTransaction {
    pub title: String,
    pub amount: Decimal,
    pub date: Timestamp,
    pub notes: String,
}

/// `t` is expense `e` imported at `now` as a transaction of `amount`: titled
/// with its description, dated by `imported_date`, noted as imported.
pub open spec fn imported_transaction_is(t: ImportedTransaction, e: ExternalExpenseDetail, amount: Decimal, now: Timestamp) -> bool {
    &&& t.title@ == e.description@
    &&& t.amount == amount
    &&& t.date == imported_date(e.date@, now)
    &&& t.notes@ == imported_notes(e.external_expense_id@)
}

fn imported_transaction(e: &ExternalExpenseDetail, amount: Decimal, now: Timestamp) -> (res: ImportedTransaction)
    ensures
        imported_transaction_is(res, *e, amount, now),
{
    let mut notes = owned("Imported from Splitwise (expense #");
    push_str(&mut notes, e.external_expense_id.as_str());
    push_str(&mut notes, ")");
    ImportedTransaction { title: e.description.clone(), amount, date: expense_date(e.date.as_str(), now), notes }
}

/// The positions of the accounts in currency `c`.
pub open spec fn in_currency(accounts: Seq<(u128, CurrencyCode)>, c: CurrencyCode) -> spec_fn(int) -> bool {
    |k: int| accounts[k].1 == c
}

fn first_account_in(accounts: &Vec<(u128, CurrencyCode)>, currency: CurrencyCode) -> (res: Option<usize>)
    ensures
        match res {
            Some(k) => k < accounts@.len() && first_where(accounts@.len() as int, in_currency(accounts@, currency)) == Some(
                k as int,
            ),
            None => first_where(accounts@.len() as int, in_currency(accounts@, currency)) is None,
        },
{
    let ghost p = in_currency(accounts@, currency);
    let mut k: usize = 0;
    while k < accounts.len()
        invariant
            k <= accounts@.len(),
            p == in_currency(accounts@, currency),
            first_where(k as int, p) is None,
        decreases accounts@.len() - k,
    {
        if accounts[k].1 == currency {
            proof {
                lemma_first_where(k + 1, accounts@.len() as int, p);
            }
            return Some(k);
        }
        k = k + 1;
    }
    None
}

fn unsupported_currency(code: &str) -> (res: ApiError)
    ensures
        api_error_view(res) == ApiErrorView::BadRequest("Unsupported currency code: "@ + code@),
{
    let mut m = owned("Unsupported currency code: ");
    push_str(&mut m, code);
    ApiError::BadRequest(m)
}

/// The transaction an expense the current user paid becomes: on the first
/// of the user's non-debt `accounts` in the expense's currency, for
/// `-|cost|`. Refused where the currency is not one of the library's, where
/// no account has it, or where the cost does not read as an amount.
pub fn regular_import(
    expense: &ExternalExpenseDetail,
    accounts: &Vec<(u128, CurrencyCode)>,
    now: Timestamp,
) -> (res: Result<(u128, ImportedTransaction), ApiError>)
    ensures
        match currency_code_from_label(expense.currency_code@) {
            None => match res {
                Err(e) => api_error_view(e) == ApiErrorView::BadRequest(
                    "Unsupported currency code: "@ + expense.currency_code@,
                ),
                Ok(_) => false,
            },
            Some(c) => match first_where(accounts@.len() as int, in_currency(accounts@, c)) {
                None => match res {
                    Err(e) => api_error_view(e) == ApiErrorView::BadRequest(
                        "No non-debt account found for currency "@ + currency_variant_name(c)
                            + ". Please create an account with this currency first."@,
                    ),
                    Ok(_) => false,
                },
                Some(k) => if readable_decimal(expense.cost@) {
                    match res {
                        Ok(p) => p.0 == accounts@[k].0 && imported_transaction_is(
                            p.1,
                            *expense,
                            neg_abs(read_decimal(expense.cost@)),
                            now,
                        ),
                        Err(_) => false,
                    }
                } else {
                    match res {
                        Err(e) => api_error_view(e) == ApiErrorView::BadRequest("Invalid expense cost: "@ + expense.cost@),
                        Ok(_) => false,
                    }
                },
            },
        },
{
    let currency = match CurrencyCode::from_code(expense.currency_code.as_str()) {
        Some(c) => c,
        None => {
            return Err(unsupported_currency(expense.currency_code.as_str()));
        },
    };
    let account_id = match first_account_in(accounts, currency) {
        Some(k) => accounts[k].0,
        None => {
            let mut m = owned("No non-debt account found for currency ");
            push_str(&mut m, currency.variant_name());
            push_str(&mut m, ". Please create an account with this currency first.");
            return Err(ApiError::BadRequest(m));
        },
    };
    let cost = match Decimal::parse(expense.cost.as_str()) {
        Some(c) => c,
        None => {
            let mut m = owned("Invalid expense cost: ");
            push_str(&mut m, expense.cost.as_str());
            return Err(ApiError::BadRequest(m));
        },
    };
    Ok((account_id, imported_transaction(expense, negated_abs(&cost), now)))
}

/// What importing an expense someone else paid records.
#[derive(Debug)]
pub struct DebtImport {
    pub currency: CurrencyCode,
    /// The transaction on the debt account, for `-|owed|`
    pub transaction: ImportedTransaction,
    /// The expense's cost, or `|owed|` where it does not read as an amount
    pub total_cost: Decimal,
    pub participants: Vec<JsonValue>,
}

/// The records of an expense someone else paid, of which the current user
/// owes `user_owed_share`: a transaction for `-|owed|` on the debt account
/// of the expense's currency (refused where the currency is not one of the
/// library's), the expense's cost as the total (`|owed|` where it does not
/// read as an amount) and its users as participants.
pub fn debt_import(expense: &ExternalExpenseDetail, user_owed_share: &Decimal, now: Timestamp) -> (res: Result<DebtImport, ApiError>)
    requires
        user_owed_share.mantissa != i128::MIN,
    ensures
        match currency_code_from_label(expense.currency_code@) {
            None => match res {
                Err(e) => api_error_view(e) == ApiErrorView::BadRequest(
                    "Unsupported currency code: "@ + expense.currency_code@,
                ),
                Ok(_) => false,
            },
            Some(c) => match res {
                Ok(d) => {
                    &&& d.currency == c
                    &&& imported_transaction_is(d.transaction, *expense, neg_abs(*user_owed_share), now)
                    &&& d.total_cost == if readable_decimal(expense.cost@) {
                        read_decimal(expense.cost@)
                    } else {
                        abs_spec(*user_owed_share)
                    }
                    &&& d.participants@.len() == expense.users@.len()
                    &&& forall|k: int|
                        0 <= k < expense.users@.len() ==> participant_record(
                            #[trigger] d.participants@[k],
                            expense.users@[k],
                        )
                },
                Err(_) => false,
            },
        },
{
    let currency = match CurrencyCode::from_code(expense.currency_code.as_str()) {
        Some(c) => c,
        None => {
            return Err(unsupported_currency(expense.currency_code.as_str()));
        },
    };
    let transaction = imported_transaction(expense, negated_abs(user_owed_share), now);
    let total_cost = match Decimal::parse(expense.cost.as_str()) {
        Some(c) => c,
        None => user_owed_share.abs(),
    };
    let participants = expense_participants(&expense.users);
    Ok(DebtImport { currency, transaction, total_cost, participants })
}

/// The users of an imported expense who get a split: all but the current
/// user whose owed share reads as an amount other than zero.
pub open spec fn gets_split(users: Seq<ExternalExpenseUser>, current: Seq<char>) -> spec_fn(int) -> bool {
    |k: int| users[k].external_user_id@ != current && sign_of(share_or_zero(users[k].owed_share@)) != 0
}

/// The splits of an imported expense the current user paid: for each user
/// who gets one (`gets_split`), in order, the user's position and the
/// split's amount, `-|owed|`.
pub fn regular_import_splits(expense: &ExternalExpenseDetail, current_user_external_id: &str) -> (res: Vec<(usize, Decimal)>)
    ensures
        res@.map_values(|p: (usize, Decimal)| p.0 as int) == indices_where(
            expense.users@.len() as int,
            gets_split(expense.users@, current_user_external_id@),
        ),
        forall|i: int|
            0 <= i < res@.len() ==> (#[trigger] res@[i]).1 == neg_abs(
                share_or_zero(expense.users@[res@[i].0 as int].owed_share@),
            ),
{
    let users = &expense.users;
    let ghost p = gets_split(users@, current_user_external_id@);
    let mut out: Vec<(usize, Decimal)> = Vec::new();
    let mut k: usize = 0;
    while k < users.len()
        invariant
            k <= users@.len(),
            users@ == expense.users@,
            p == gets_split(users@, current_user_external_id@),
            out@.map_values(|q: (usize, Decimal)| q.0 as int) == indices_where(k as int, p),
            forall|i: int|
                0 <= i < out@.len() ==> (#[trigger] out@[i]).1 == neg_abs(share_or_zero(users@[out@[i].0 as int].owed_share@)),
            forall|i: int| 0 <= i < out@.len() ==> (#[trigger] out@[i]).0 < k,
        decreases users@.len() - k,
    {
        let u = &users[k];
        if !str_eq(u.external_user_id.as_str(), current_user_external_id) {
            let owed = share_value(u.owed_share.as_str());
            if !owed.is_zero() {
                out.push((k, negated_abs(&owed)));
                assert(out@.map_values(|q: (usize, Decimal)| q.0 as int) =~= indices_where(k + 1, p));
            }
        }
        k = k + 1;
    }
    out
}

/// The name of a person created for an external user: first and last name,
/// trimmed, or "Splitwise User" and the ID where both are blank.
pub open spec fn imported_person_name(first: Seq<char>, last: Seq<char>, external_id: Seq<char>) -> Seq<char> {
    let n = trimmed(first + " "@ + last);
    if n.len() == 0 {
        "Splitwise User "@ + external_id
    } else {
        n
    }
}

/// The name and note of a person created for an external user.
pub fn imported_person(first_name: &str, last_name: &str, external_user_id: &str) -> (res: (String, String))
    ensures
        res.0@ == imported_person_name(first_name@, last_name@, external_user_id@),
        res.1@ == "Auto-created from Splitwise (external user ID: "@ + external_user_id@ + ")"@,
{
    let mut joined = owned(first_name);
    push_str(&mut joined, " ");
    push_str(&mut joined, last_name);
    let trimmed_name = trim(joined.as_str());
    let name = if trimmed_name.as_str().unicode_len() == 0 {
        let mut n = owned("Splitwise User ");
        push_str(&mut n, external_user_id);
        n
    } else {
        trimmed_name
    };
    let mut notes = owned("Auto-created from Splitwise (external user ID: ");
    push_str(&mut notes, external_user_id);
    push_str(&mut notes, ")");
    (name, notes)
}

/// The message of an imported debt.
pub fn debt_import_message(user_owed_share: &Decimal, payer_external_id: &str) -> (res: String)
    ensures
        res@ == "Created debt transaction for "@ + text_of(*user_owed_share) + " (paid by Splitwise user "@
            + payer_external_id@ + ")"@,
{
    let mut m = owned("Created debt transaction for ");
    push_str(&mut m, decimal_to_string(user_owed_share).as_str());
    push_str(&mut m, " (paid by Splitwise user ");
    push_str(&mut m, payer_external_id);
    push_str(&mut m, ")");
    m
}

/// The message of an imported expense the current user paid.
pub fn regular_import_message(cost: &str) -> (res: String)
    ensures
        res@ == "Created regular transaction for "@ + cost@ + " (paid by current user)"@,
{
    let mut m = owned("Created regular transaction for ");
    push_str(&mut m, cost);
    push_str(&mut m, " (paid by current user)");
    m
}

/// How a mismatch is resolved.
#[derive(Debug, Clone, Copy, PartialEq, Eq, Structural)]
pub enum ResolveAction {
    /// Overwrite the provider's expense with the local splits.
    Push,
    /// Update the local transaction and splits from the provider's expense.
    Pull,
}

/// Reads the action of a mismatch resolution: "push" or "pull".
pub fn resolve_action(action: &str) -> (res: Result<ResolveAction, ApiError>)
    ensures
        action@ == "push"@ ==> res == Ok::<ResolveAction, ApiError>(ResolveAction::Push),
        action@ == "pull"@ ==> res == Ok::<ResolveAction, ApiError>(ResolveAction::Pull),
        action@ != "push"@ && action@ != "pull"@ ==> match res {
            Err(e) => api_error_view(e) == ApiErrorView::BadRequest(
                "Invalid action: "@ + action@ + ". Must be 'push' or 'pull'"@,
            ),
            Ok(_) => false,
        },
{
    proof {
        reveal_strlit("push");
        reveal_strlit("pull");
        assert("push"@ != "pull"@) by {
            assert("push"@[2] != "pull"@[2]);
        }
    }
    if str_eq(action, "push") {
        Ok(ResolveAction::Push)
    } else if str_eq(action, "pull") {
        Ok(ResolveAction::Pull)
    } else {
        let mut m = owned("Invalid action: ");
        push_str(&mut m, action);
        push_str(&mut m, ". Must be 'push' or 'pull'");
        Err(ApiError::BadRequest(m))
    }
}

/// The new amount of split `s` pulled from an expense's `users`: `|owed|` of
/// the first user with the split person's external ID, where that share
/// reads as an amount.
pub open spec fn pulled_split_amount(users: Seq<ExternalExpenseUser>, s: (TransactionSplit, PersonSplitConfig)) -> Option<Decimal> {
    match first_user_with(users, s.1.external_user_id@) {
        Some(k) => if readable_decimal(users[k].owed_share@) {
            Some(abs_spec(read_decimal(users[k].owed_share@)))
        } else {
            None
        },
        None => None,
    }
}

/// What pulling an expense changes locally: the transaction's amount,
/// `-|cost|` where the cost reads as an amount, and each split's amount
/// (`pulled_split_amount`; unchanged where it is `None`).
pub fn pull_updates(expense: &ExternalExpenseDetail, splits: &[(TransactionSplit, PersonSplitConfig)]) -> (res: (
    Option<Decimal>,
    Vec<Option<Decimal>>,
))
    ensures
        res.0 == if readable_decimal(expense.cost@) {
            Some(neg_abs(read_decimal(expense.cost@)))
        } else {
            None
        },
        res.1@.len() == splits@.len(),
        forall|k: int| 0 <= k < splits@.len() ==> #[trigger] res.1@[k] == pulled_split_amount(expense.users@, splits@[k]),
{
    let amount = match Decimal::parse(expense.cost.as_str()) {
        Some(c) => Some(negated_abs(&c)),
        None => None,
    };
    let users = &expense.users;
    let mut out: Vec<Option<Decimal>> = Vec::new();
    let mut k: usize = 0;
    while k < splits.len()
        invariant
            k <= splits@.len(),
            users@ == expense.users@,
            out@.len() == k,
            forall|j: int| 0 <= j < k ==> #[trigger] out@[j] == pulled_split_amount(users@, splits@[j]),
        decreases splits@.len() - k,
    {
        let pair = &splits[k];
        let next = match find_user(users, pair.1.external_user_id.as_str()) {
            Some(u) => match Decimal::parse(users[u].owed_share.as_str()) {
                Some(d) => Some(d.abs()),
                None => None,
            },
            None => None,
        };
        out.push(next);
        k = k + 1;
    }
    (amount, out)
}

/// What a sync does once it knows whether the group is linked to an
/// expense and, where it is, whether that expense still exists and matches.
#[derive(Debug, Clone, Copy, PartialEq, Eq, Structural)]
pub enum LinkedStep {
    /// The linked expense matches: the group is in sync.
    AlreadySynced,
    /// The linked expense differs: report the mismatch.
    ReportMismatch,
    /// Not linked, or the linked expense is gone: search for a match.
    Search,
}

/// Decides the first step of a sync: with no linked expense, or one the
/// provider no longer has (`linked_matches` is `None`), search; with one
/// that matches, the group is in sync; otherwise report the mismatch.
pub fn linked_step(linked_expense_id: &Option<String>, linked_matches: Option<bool>) -> (res: LinkedStep)
    ensures
        res == match (linked_expense_id, linked_matches) {
            (Some(_), Some(true)) => LinkedStep::AlreadySynced,
            (Some(_), Some(false)) => LinkedStep::ReportMismatch,
            _ => LinkedStep::Search,
        },
{
    match (linked_expense_id, linked_matches) {
        (Some(_), Some(true)) => LinkedStep::AlreadySynced,
        (Some(_), Some(false)) => LinkedStep::ReportMismatch,
        _ => LinkedStep::Search,
    }
}

/// How a sync of a transaction's splits ended, short of a mismatch.
#[derive(Debug, Clone, Copy, PartialEq, Eq, Structural)]
pub enum SyncEnd {
    /// The linked expense was already in sync.
    Synced,
    /// An existing expense was found and linked.
    Linked,
    /// A new expense was created.
    Created,
}

/// The status word of an ending.
pub open spec fn sync_end_status(e: SyncEnd) -> Seq<char> {
    match e {
        SyncEnd::Synced => "synced"@,
        SyncEnd::Linked => "linked"@,
        SyncEnd::Created => "created"@,
    }
}

/// The message of an ending, for a debt (someone else paid) or not.
pub open spec fn sync_end_message(e: SyncEnd, debt: bool) -> Seq<char> {
    match (e, debt) {
        (SyncEnd::Synced, false) => "Transaction is already in sync with split provider"@,
        (SyncEnd::Linked, false) => "Existing expense found and linked"@,
        (SyncEnd::Created, false) => "New expense created on split provider"@,
        (SyncEnd::Synced, true) => "Debt transaction is in sync with split provider"@,
        (SyncEnd::Linked, true) => "Existing Splitwise expense found and linked (friend as payer)"@,
        (SyncEnd::Created, true) => "Debt expense created on split provider (friend as payer)"@,
    }
}

/// The answer of a sync that ended well: its status, the expense it is
/// linked to (for a synced or linked group), and its message. The splits'
/// sync records are then `Synced` with that expense.
pub fn sync_answer(end: SyncEnd, debt: bool, external_expense_id: &str) -> (res: JsonValue)
    ensures
        end == SyncEnd::Created ==> string_object(
            res,
            seq!["status"@, "message"@],
            seq![sync_end_status(end), sync_end_message(end, debt)],
        ),
        end != SyncEnd::Created ==> string_object(
            res,
            seq!["status"@, "external_expense_id"@, "message"@],
            seq![sync_end_status(end), external_expense_id@, sync_end_message(end, debt)],
        ),
{
    let status = match end {
        SyncEnd::Synced => "synced",
        SyncEnd::Linked => "linked",
        SyncEnd::Created => "created",
    };
    let message = match (end, debt) {
        (SyncEnd::Synced, false) => "Transaction is already in sync with split provider",
        (SyncEnd::Linked, false) => "Existing expense found and linked",
        (SyncEnd::Created, false) => "New expense created on split provider",
        (SyncEnd::Synced, true) => "Debt transaction is in sync with split provider",
        (SyncEnd::Linked, true) => "Existing Splitwise expense found and linked (friend as payer)",
        (SyncEnd::Created, true) => "Debt expense created on split provider (friend as payer)",
    };
    let mut m: Vec<JsonMember> = Vec::new();
    m.push(string_member("status", status));
    if end != SyncEnd::Created {
        m.push(string_member("external_expense_id", external_expense_id));
    }
    m.push(string_member("message", message));
    let v = JsonValue::Object(m);
    proof {
        if end == SyncEnd::Created {
            let keys = seq!["status"@, "message"@];
            let vals = seq![sync_end_status(end), sync_end_message(end, debt)];
            assert forall|i: int| 0 <= i < keys.len() implies string_member_is(#[trigger] m@[i], keys[i], vals[i]) by {}
        } else {
            let keys = seq!["status"@, "external_expense_id"@, "message"@];
            let vals = seq![sync_end_status(end), external_expense_id@, sync_end_message(end, debt)];
            assert forall|i: int| 0 <= i < keys.len() implies string_member_is(#[trigger] m@[i], keys[i], vals[i]) by {}
        }
    }
    v
}

/// How a group's sync records change after updating its expense: on
/// success `Synced` with no error and the retry count kept; on failure
/// `Failed` with the error and one more retry.
#[derive(Debug, Clone)]
pub struct RecordUpdate {
    pub status: SyncStatus,
    pub last_error: Option<String>,
    /// The new retry count, where it changes
    pub retry_count: Option<i32>,
}

/// The change of each sync record of a group after updating its expense
/// (`error` is the provider's message where the update failed).
pub fn group_update_record(error: Option<String>, retry_count: i32) -> (res: RecordUpdate)
    requires
        retry_count < i32::MAX,
    ensures
        match error {
            None => res.status == SyncStatus::Synced && res.last_error is None && res.retry_count is None,
            Some(e) => res.status == SyncStatus::Failed && res.last_error == Some(e) && res.retry_count == Some(
                (retry_count + 1) as i32,
            ),
        },
{
    match error {
        None => RecordUpdate { status: SyncStatus::Synced, last_error: None, retry_count: None },
        Some(e) => RecordUpdate { status: SyncStatus::Failed, last_error: Some(e), retry_count: Some(retry_count + 1) },
    }
}

} // verus!
