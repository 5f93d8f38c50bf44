//! Drift detection between local split transactions and the expenses a
//! split provider holds.
//!
//! Each local transaction is synced (linked to an external expense whose
//! shares agree), drifted (linked, shares differ) or missing on external
//! (not linked, or linked to an expense the provider no longer lists).
//! External expenses that no local transaction links to are missing on
//! local. The summary counts satisfy
//! `total_local = synced + drifted + missing_on_external` and
//! `total_external = synced + drifted + missing_on_local`.
use vstd::prelude::*;
use crate::decimal::{
    abs_spec, aligned, common_scale, decimal_text_2dp, decimal_to_string_2dp, difference_fits,
    read_decimal, readable_decimal, same_value, sum, sum_aligned, sum_in_range, sum_scale,
    Decimal,
};
use crate::models::Timestamp;
use crate::selection::{indices_where, lemma_indices_where, lemma_three_way_split};
use crate::services::split_provider::types::{ExternalExpenseDetail, ExternalExpenseUser};
use crate::text::str_eq;

verus! {

/// One split of a local transaction, with its provider link.
#[derive(Debug, Clone)]
pub struct LocalSplitRow {
    pub split_id: u128,
    pub person_name: String,
    pub split_amount: Decimal,
    pub external_user_id: String,
    pub provider_id: u128,
    /// The expense this split was synced to, if any
    pub external_expense_id: Option<String>,
    pub sync_status: Option<String>,
}

/// A local transaction with its splits.
#[derive(Debug, Clone)]
pub struct LocalTransactionGroup {
    pub transaction_id: u128,
    pub transaction_title: String,
    pub transaction_amount: Decimal,
    pub transaction_date: Timestamp,
    pub splits: Vec<LocalSplitRow>,
}

/// A local split as the report shows it.
#[derive(Debug, Clone)]
pub struct LocalSplitInfo {
    pub person_name: String,
    pub external_user_id: String,
    /// `|amount|` with two decimals
    pub owed_share: String,
}

/// A user of an external expense as the report shows it.
#[derive(Debug, Clone)]
pub struct ExternalSplitInfo {
    pub external_user_id: String,
    pub first_name: String,
    pub last_name: String,
    pub owed_share: String,
    pub paid_share: String,
}

/// A linked transaction whose shares differ from its external expense.
#[derive(Debug, Clone)]
pub struct DriftedItem {
    pub transaction_id: u128,
    pub transaction_title: String,
    pub transaction_date: Timestamp,
    pub local_amount: String,
    pub external_expense_id: String,
    pub external_description: String,
    pub external_cost: String,
    pub external_date: String,
    pub local_splits: Vec<LocalSplitInfo>,
    pub external_splits: Vec<ExternalSplitInfo>,
}

/// A local transaction that has no expense on the provider.
#[derive(Debug, Clone)]
pub struct MissingOnExternal {
    pub transaction_id: u128,
    pub transaction_title: String,
    pub transaction_date: Timestamp,
    pub amount: String,
    pub splits: Vec<LocalSplitInfo>,
}

/// An external user with no local person mapped to it.
#[derive(Debug, Clone)]
pub struct UnmappedUser {
    pub external_user_id: String,
    pub first_name: String,
    pub last_name: String,
}

/// An external expense that no local transaction links to.
#[derive(Debug, Clone)]
pub struct MissingOnLocal {
    pub external_expense_id: String,
    pub description: String,
    pub cost: String,
    pub currency_code: String,
    pub date: String,
    pub users: Vec<ExternalSplitInfo>,
    pub unmapped_users: Vec<UnmappedUser>,
}

#[derive(Debug, Clone, Copy, PartialEq, Eq, Structural)]
pub struct DriftSummary {
    pub total_local: i64,
    pub total_external: i64,
    pub synced: i64,
    pub drifted: i64,
    pub missing_on_external: i64,
    pub missing_on_local: i64,
}

#[derive(Debug, Clone)]
pub struct DriftReport {
    pub summary: DriftSummary,
    pub drifted: Vec<DriftedItem>,
    pub missing_on_external: Vec<MissingOnExternal>,
    pub missing_on_local: Vec<MissingOnLocal>,
}

/// An optional text as characters.
pub open spec fn opt_text(o: Option<&str>) -> Option<Seq<char>> {
    match o {
        Some(s) => Some(s@),
        None => None,
    }
}

/// The owed share of user `uid` among the first `n` users of an expense:
/// the last of their entries whose owed share is readable.
pub open spec fn external_share(users: Seq<ExternalExpenseUser>, uid: Seq<char>, n: int) -> Option<Decimal>
    decreases n,
{
    if n <= 0 {
        None
    } else if users[n - 1].external_user_id@ == uid && readable_decimal(users[n - 1].owed_share@) {
        Some(read_decimal(users[n - 1].owed_share@))
    } else {
        external_share(users, uid, n - 1)
    }
}

pub open spec fn share_of(users: Seq<ExternalExpenseUser>, uid: Seq<char>) -> Option<Decimal> {
    external_share(users, uid, users.len() as int)
}

/// `|amount|` of every split.
pub open spec fn abs_split_amounts(splits: Seq<LocalSplitRow>) -> Seq<Decimal> {
    splits.map_values(|s: LocalSplitRow| abs_spec(s.split_amount))
}

/// The sum of `|amount|` over the splits.
pub open spec fn splits_total(splits: Seq<LocalSplitRow>) -> Decimal {
    let a = abs_split_amounts(splits);
    let t = sum_scale(a);
    Decimal { mantissa: sum_aligned(a, t) as i128, scale: t as i64 }
}

/// The payer's own share: `|amount| - Σ |split|`.
pub open spec fn payer_share(txn: LocalTransactionGroup) -> Decimal {
    let a = abs_spec(txn.transaction_amount);
    let b = splits_total(txn.splits@);
    let s = common_scale(a, b);
    Decimal { mantissa: (aligned(a, s) - aligned(b, s)) as i128, scale: s as i64 }
}

/// Whether the amounts of `txn` can be negated and summed with `i128`
/// mantissas.
pub open spec fn amounts_in_range(txn: LocalTransactionGroup) -> bool {
    &&& txn.transaction_amount.mantissa != i128::MIN
    &&& forall|k: int|
        0 <= k < txn.splits@.len() ==> (#[trigger] txn.splits@[k]).split_amount.mantissa != i128::MIN
    &&& sum_in_range(abs_split_amounts(txn.splits@))
    &&& difference_fits(abs_spec(txn.transaction_amount), splits_total(txn.splits@))
}

/// Every local split has an external share of the same value.
pub open spec fn participants_match(txn: LocalTransactionGroup, users: Seq<ExternalExpenseUser>) -> bool {
    forall|k: int|
        0 <= k < txn.splits@.len() ==> match share_of(users, (#[trigger] txn.splits@[k]).external_user_id@) {
            Some(v) => same_value(abs_spec(txn.splits@[k].split_amount), v),
            None => false,
        }
}

/// The current user's external share, where there is one, equals the
/// payer's own share.
pub open spec fn payer_matches(
    txn: LocalTransactionGroup,
    users: Seq<ExternalExpenseUser>,
    current: Option<Seq<char>>,
) -> bool {
    match current {
        Some(id) => match share_of(users, id) {
            Some(v) => same_value(payer_share(txn), v),
            None => true,
        },
        None => true,
    }
}

pub open spec fn splits_match(
    txn: LocalTransactionGroup,
    expense: ExternalExpenseDetail,
    current: Option<Seq<char>>,
) -> bool {
    participants_match(txn, expense.users@) && payer_matches(txn, expense.users@, current)
}

/// The owed share of `uid` in `users` (`share_of`).
fn find_share(users: &Vec<ExternalExpenseUser>, uid: &str) -> (res: Option<Decimal>)
    ensures
        res == share_of(users@, uid@),
{
    let mut found: Option<Decimal> = None;
    let mut k: usize = 0;
    while k < users.len()
        invariant
            k <= users@.len(),
            found == external_share(users@, uid@, k as int),
        decreases users@.len() - k,
    {
        if str_eq(users[k].external_user_id.as_str(), uid) {
            match Decimal::parse(users[k].owed_share.as_str()) {
                Some(d) => {
                    found = Some(d);
                },
                None => {},
            }
        }
        k = k + 1;
    }
    found
}

/// `payer_share(txn)`.
fn compute_payer_share(txn: &LocalTransactionGroup) -> (res: Decimal)
    requires
        amounts_in_range(*txn),
    ensures
        res == payer_share(*txn),
{
    let mut amounts: Vec<Decimal> = Vec::new();
    let mut k: usize = 0;
    while k < txn.splits.len()
        invariant
            k <= txn.splits@.len(),
            amounts_in_range(*txn),
            amounts@ == abs_split_amounts(txn.splits@).take(k as int),
        decreases txn.splits@.len() - k,
    {
        let a = txn.splits[k].split_amount.abs();
        amounts.push(a);
        k = k + 1;
    }
    assert(amounts@ == abs_split_amounts(txn.splits@));
    let total = match sum(&amounts) {
        Some(t) => t,
        None => {
            assert(false);
            Decimal::zero()
        },
    };
    assert(total == splits_total(txn.splits@));
    let abs_amount = txn.transaction_amount.abs();
    match crate::decimal::sub(&abs_amount, &total) {
        Some(p) => p,
        None => {
            assert(false);
            Decimal::zero()
        },
    }
}

/// Whether the splits of `local_txn` agree with `external_expense`: each
/// split's `|amount|` equals the owed share of its external user, and the
/// payer's own share (`|amount| - Σ |split|`) equals the current user's
/// owed share where the expense has one.
pub fn compare_splits(
    local_txn: &LocalTransactionGroup,
    external_expense: &ExternalExpenseDetail,
    current_user_external_id: Option<&str>,
) -> (res: bool)
    requires
        amounts_in_range(*local_txn),
    ensures
        res == splits_match(*local_txn, *external_expense, opt_text(current_user_external_id)),
{
    let users = &external_expense.users;
    let mut k: usize = 0;
    while k < local_txn.splits.len()
        invariant
            k <= local_txn.splits@.len(),
            amounts_in_range(*local_txn),
            users@ == external_expense.users@,
            forall|j: int|
                0 <= j < k ==> match share_of(users@, (#[trigger] local_txn.splits@[j]).external_user_id@) {
                    Some(v) => same_value(abs_spec(local_txn.splits@[j].split_amount), v),
                    None => false,
                },
        decreases local_txn.splits@.len() - k,
    {
        let split = &local_txn.splits[k];
        let local_owed = split.split_amount.abs();
        match find_share(users, split.external_user_id.as_str()) {
            Some(external_owed) => {
                if !local_owed.same_value_as(&external_owed) {
                    assert(!participants_match(*local_txn, users@)) by {
                        assert(local_txn.splits@[k as int] == *split);
                    }
                    return false;
                }
            },
            None => {
                assert(!participants_match(*local_txn, users@)) by {
                    assert(local_txn.splits@[k as int] == *split);
                }
                return false;
            },
        }
        k = k + 1;
    }
    match current_user_external_id {
        Some(id) => match find_share(users, id) {
            Some(external_payer_owed) => {
                let local_payer_share = compute_payer_share(local_txn);
                local_payer_share.same_value_as(&external_payer_owed)
            },
            None => true,
        },
        None => true,
    }
}

/// The expense the first `n` splits link to: the first split that has a
/// sync record with an external expense ID.
pub open spec fn linked_id(splits: Seq<LocalSplitRow>, n: int) -> Option<Seq<char>>
    decreases n,
{
    if n <= 0 {
        None
    } else {
        match linked_id(splits, n - 1) {
            Some(x) => Some(x),
            None => match splits[n - 1].external_expense_id {
                Some(id) => Some(id@),
                None => None,
            },
        }
    }
}

/// The external expense ID a local transaction is linked to, if any.
pub open spec fn txn_link(txn: LocalTransactionGroup) -> Option<Seq<char>> {
    linked_id(txn.splits@, txn.splits@.len() as int)
}

/// The position of the expense with ID `id` among the first `n`; where
/// several carry it, the last one.
pub open spec fn find_expense(exts: Seq<ExternalExpenseDetail>, id: Seq<char>, n: int) -> Option<int>
    decreases n,
{
    if n <= 0 {
        None
    } else if exts[n - 1].external_expense_id@ == id {
        Some(n - 1)
    } else {
        find_expense(exts, id, n - 1)
    }
}

proof fn lemma_find_expense(exts: Seq<ExternalExpenseDetail>, id: Seq<char>, n: int)
    ensures
        match find_expense(exts, id, n) {
            Some(j) => 0 <= j < n && exts[j].external_expense_id@ == id,
            None => true,
        },
    decreases n,
{
    if n > 0 {
        lemma_find_expense(exts, id, n - 1);
    }
}

/// The external expense a local transaction is linked to, when the
/// provider lists it.
pub open spec fn linked_expense(txn: LocalTransactionGroup, exts: Seq<ExternalExpenseDetail>) -> Option<int> {
    match txn_link(txn) {
        Some(id) => find_expense(exts, id, exts.len() as int),
        None => None,
    }
}

pub open spec fn is_synced(
    txn: LocalTransactionGroup,
    exts: Seq<ExternalExpenseDetail>,
    current: Option<Seq<char>>,
) -> bool {
    match linked_expense(txn, exts) {
        Some(j) => splits_match(txn, exts[j], current),
        None => false,
    }
}

pub open spec fn is_drifted(
    txn: LocalTransactionGroup,
    exts: Seq<ExternalExpenseDetail>,
    current: Option<Seq<char>>,
) -> bool {
    match linked_expense(txn, exts) {
        Some(j) => !splits_match(txn, exts[j], current),
        None => false,
    }
}

pub open spec fn is_missing_on_external(txn: LocalTransactionGroup, exts: Seq<ExternalExpenseDetail>) -> bool {
    linked_expense(txn, exts) is None
}

/// Whether some local transaction links to the expense ID `id`.
pub open spec fn linked_by_any(txns: Seq<LocalTransactionGroup>, id: Seq<char>) -> bool {
    exists|t: int| 0 <= t < txns.len() && txn_link(#[trigger] txns[t]) == Some(id)
}

/// Whether the external user `id` has a local person mapped to it.
pub open spec fn is_mapped(mapping: Seq<(String, String)>, id: Seq<char>) -> bool {
    exists|k: int| 0 <= k < mapping.len() && (#[trigger] mapping[k]).0@ == id
}

/// Whether user `u` of an expense needs a mapping it lacks (the current
/// user needs none).
pub open spec fn is_unmapped(u: ExternalExpenseUser, mapping: Seq<(String, String)>, current: Option<Seq<char>>) -> bool {
    current != Some(u.external_user_id@) && !is_mapped(mapping, u.external_user_id@)
}

pub open spec fn amount_text(d: Decimal) -> Seq<char> {
    decimal_text_2dp(d.mantissa as int, d.scale as int)
}

pub open spec fn local_info_matches(i: LocalSplitInfo, s: LocalSplitRow) -> bool {
    &&& i.person_name@ == s.person_name@
    &&& i.external_user_id@ == s.external_user_id@
    &&& i.owed_share@ == amount_text(abs_spec(s.split_amount))
}

pub open spec fn local_infos_match(infos: Seq<LocalSplitInfo>, splits: Seq<LocalSplitRow>) -> bool {
    &&& infos.len() == splits.len()
    &&& forall|k: int| 0 <= k < splits.len() ==> local_info_matches(#[trigger] infos[k], splits[k])
}

pub open spec fn external_info_matches(i: ExternalSplitInfo, u: ExternalExpenseUser) -> bool {
    &&& i.external_user_id@ == u.external_user_id@
    &&& i.first_name@ == u.first_name@
    &&& i.last_name@ == u.last_name@
    &&& i.owed_share@ == u.owed_share@
    &&& i.paid_share@ == u.paid_share@
}

pub open spec fn external_infos_match(infos: Seq<ExternalSplitInfo>, users: Seq<ExternalExpenseUser>) -> bool {
    &&& infos.len() == users.len()
    &&& forall|k: int| 0 <= k < users.len() ==> external_info_matches(#[trigger] infos[k], users[k])
}

pub open spec fn unmapped_matches(x: UnmappedUser, u: ExternalExpenseUser) -> bool {
    &&& x.external_user_id@ == u.external_user_id@
    &&& x.first_name@ == u.first_name@
    &&& x.last_name@ == u.last_name@
}

/// The positions of the users that lack a mapping.
pub open spec fn unmapped_positions(
    users: Seq<ExternalExpenseUser>,
    mapping: Seq<(String, String)>,
    current: Option<Seq<char>>,
) -> Seq<int> {
    indices_where(users.len() as int, |k: int| is_unmapped(users[k], mapping, current))
}

pub open spec fn unmapped_list_matches(
    list: Seq<UnmappedUser>,
    users: Seq<ExternalExpenseUser>,
    mapping: Seq<(String, String)>,
    current: Option<Seq<char>>,
) -> bool {
    let pos = unmapped_positions(users, mapping, current);
    &&& list.len() == pos.len()
    &&& forall|k: int| 0 <= k < pos.len() ==> unmapped_matches(#[trigger] list[k], users[pos[k]])
}

pub open spec fn drifted_item_matches(item: DriftedItem, txn: LocalTransactionGroup, e: ExternalExpenseDetail) -> bool {
    &&& item.transaction_id == txn.transaction_id
    &&& item.transaction_title@ == txn.transaction_title@
    &&& item.transaction_date == txn.transaction_date
    &&& item.local_amount@ == amount_text(txn.transaction_amount)
    &&& item.external_expense_id@ == e.external_expense_id@
    &&& item.external_description@ == e.description@
    &&& item.external_cost@ == e.cost@
    &&& item.external_date@ == e.date@
    &&& local_infos_match(item.local_splits@, txn.splits@)
    &&& external_infos_match(item.external_splits@, e.users@)
}

pub open spec fn missing_external_matches(item: MissingOnExternal, txn: LocalTransactionGroup) -> bool {
    &&& item.transaction_id == txn.transaction_id
    &&& item.transaction_title@ == txn.transaction_title@
    &&& item.transaction_date == txn.transaction_date
    &&& item.amount@ == amount_text(txn.transaction_amount)
    &&& local_infos_match(item.splits@, txn.splits@)
}

pub open spec fn missing_local_matches(
    item: MissingOnLocal,
    e: ExternalExpenseDetail,
    mapping: Seq<(String, String)>,
    current: Option<Seq<char>>,
) -> bool {
    &&& item.external_expense_id@ == e.external_expense_id@
    &&& item.description@ == e.description@
    &&& item.cost@ == e.cost@
    &&& item.currency_code@ == e.currency_code@
    &&& item.date@ == e.date@
    &&& external_infos_match(item.users@, e.users@)
    &&& unmapped_list_matches(item.unmapped_users@, e.users@, mapping, current)
}

pub open spec fn synced_positions(
    txns: Seq<LocalTransactionGroup>,
    exts: Seq<ExternalExpenseDetail>,
    current: Option<Seq<char>>,
) -> Seq<int> {
    indices_where(txns.len() as int, |t: int| is_synced(txns[t], exts, current))
}

pub open spec fn drifted_positions(
    txns: Seq<LocalTransactionGroup>,
    exts: Seq<ExternalExpenseDetail>,
    current: Option<Seq<char>>,
) -> Seq<int> {
    indices_where(txns.len() as int, |t: int| is_drifted(txns[t], exts, current))
}

pub open spec fn missing_external_positions(
    txns: Seq<LocalTransactionGroup>,
    exts: Seq<ExternalExpenseDetail>,
) -> Seq<int> {
    indices_where(txns.len() as int, |t: int| is_missing_on_external(txns[t], exts))
}

pub open spec fn missing_local_positions(
    txns: Seq<LocalTransactionGroup>,
    exts: Seq<ExternalExpenseDetail>,
) -> Seq<int> {
    indices_where(exts.len() as int, |j: int| !linked_by_any(txns, exts[j].external_expense_id@))
}

/// The report `classify` gives.
pub open spec fn report_matches(
    report: DriftReport,
    txns: Seq<LocalTransactionGroup>,
    exts: Seq<ExternalExpenseDetail>,
    mapping: Seq<(String, String)>,
    current: Option<Seq<char>>,
) -> bool {
    let si = synced_positions(txns, exts, current);
    let di = drifted_positions(txns, exts, current);
    let mi = missing_external_positions(txns, exts);
    let li = missing_local_positions(txns, exts);
    &&& report.summary.synced == si.len()
    &&& report.summary.drifted == di.len()
    &&& report.summary.missing_on_external == mi.len()
    &&& report.summary.missing_on_local == li.len()
    &&& report.summary.total_local == si.len() + di.len() + mi.len()
    &&& report.summary.total_external == si.len() + di.len() + li.len()
    &&& report.drifted@.len() == di.len()
    &&& forall|k: int|
        0 <= k < di.len() ==> drifted_item_matches(
            #[trigger] report.drifted@[k],
            txns[di[k]],
            exts[linked_expense(txns[di[k]], exts).unwrap()],
        )
    &&& report.missing_on_external@.len() == mi.len()
    &&& forall|k: int|
        0 <= k < mi.len() ==> missing_external_matches(#[trigger] report.missing_on_external@[k], txns[mi[k]])
    &&& report.missing_on_local@.len() == li.len()
    &&& forall|k: int|
        0 <= k < li.len() ==> missing_local_matches(
            #[trigger] report.missing_on_local@[k],
            exts[li[k]],
            mapping,
            current,
        )
}

/// The link of a local transaction (`txn_link`).
fn link_of(txn: &LocalTransactionGroup) -> (res: Option<String>)
    ensures
        match res {
            Some(s) => txn_link(*txn) == Some(s@),
            None => txn_link(*txn) is None,
        },
{
    let mut found: Option<String> = None;
    let mut k: usize = 0;
    while k < txn.splits.len()
        invariant
            k <= txn.splits@.len(),
            match found {
                Some(s) => linked_id(txn.splits@, k as int) == Some(s@),
                None => linked_id(txn.splits@, k as int) is None,
            },
        decreases txn.splits@.len() - k,
    {
        if found.is_none() {
            match &txn.splits[k].external_expense_id {
                Some(id) => {
                    found = Some(id.clone());
                },
                None => {},
            }
        }
        k = k + 1;
    }
    found
}

/// The position of the (last) expense with ID `id`.
fn find_expense_index(exts: &[ExternalExpenseDetail], id: &str) -> (res: Option<usize>)
    ensures
        match res {
            Some(j) => find_expense(exts@, id@, exts@.len() as int) == Some(j as int),
            None => find_expense(exts@, id@, exts@.len() as int) is None,
        },
{
    let mut found: Option<usize> = None;
    let mut k: usize = 0;
    while k < exts.len()
        invariant
            k <= exts@.len(),
            match found {
                Some(j) => find_expense(exts@, id@, k as int) == Some(j as int),
                None => find_expense(exts@, id@, k as int) is None,
            },
        decreases exts@.len() - k,
    {
        if str_eq(exts[k].external_expense_id.as_str(), id) {
            found = Some(k);
        }
        k = k + 1;
    }
    found
}

fn local_split_infos(splits: &Vec<LocalSplitRow>) -> (res: Vec<LocalSplitInfo>)
    requires
        forall|k: int| 0 <= k < splits@.len() ==> (#[trigger] splits@[k]).split_amount.mantissa != i128::MIN,
    ensures
        local_infos_match(res@, splits@),
{
    let mut res: Vec<LocalSplitInfo> = Vec::new();
    let mut k: usize = 0;
    while k < splits.len()
        invariant
            k <= splits@.len(),
            forall|j: int| 0 <= j < splits@.len() ==> (#[trigger] splits@[j]).split_amount.mantissa != i128::MIN,
            res@.len() == k,
            forall|j: int| 0 <= j < k ==> local_info_matches(#[trigger] res@[j], splits@[j]),
        decreases splits@.len() - k,
    {
        let s = &splits[k];
        let owed = s.split_amount.abs();
        res.push(LocalSplitInfo {
            person_name: s.person_name.clone(),
            external_user_id: s.external_user_id.clone(),
            owed_share: decimal_to_string_2dp(&owed),
        });
        k = k + 1;
    }
    res
}

fn external_split_infos(users: &Vec<ExternalExpenseUser>) -> (res: Vec<ExternalSplitInfo>)
    ensures
        external_infos_match(res@, users@),
{
    let mut res: Vec<ExternalSplitInfo> = Vec::new();
    let mut k: usize = 0;
    while k < users.len()
        invariant
            k <= users@.len(),
            res@.len() == k,
            forall|j: int| 0 <= j < k ==> external_info_matches(#[trigger] res@[j], users@[j]),
        decreases users@.len() - k,
    {
        let u = &users[k];
        res.push(ExternalSplitInfo {
            external_user_id: u.external_user_id.clone(),
            first_name: u.first_name.clone(),
            last_name: u.last_name.clone(),
            owed_share: u.owed_share.clone(),
            paid_share: u.paid_share.clone(),
        });
        k = k + 1;
    }
    res
}

/// Whether `mapping` has an entry for the external user `id`.
fn has_mapping(mapping: &Vec<(String, String)>, id: &str) -> (res: bool)
    ensures
        res == is_mapped(mapping@, id@),
{
    let mut k: usize = 0;
    while k < mapping.len()
        invariant
            k <= mapping@.len(),
            forall|j: int| 0 <= j < k ==> (#[trigger] mapping@[j]).0@ != id@,
        decreases mapping@.len() - k,
    {
        if str_eq(mapping[k].0.as_str(), id) {
            return true;
        }
        k = k + 1;
    }
    false
}

fn unmapped_users_of(
    users: &Vec<ExternalExpenseUser>,
    mapping: &Vec<(String, String)>,
    current: Option<&str>,
) -> (res: Vec<UnmappedUser>)
    ensures
        unmapped_list_matches(res@, users@, mapping@, opt_text(current)),
{
    let ghost p = |k: int| is_unmapped(users@[k], mapping@, opt_text(current));
    let mut res: Vec<UnmappedUser> = Vec::new();
    let mut k: usize = 0;
    while k < users.len()
        invariant
            k <= users@.len(),
            p == (|k: int| is_unmapped(users@[k], mapping@, opt_text(current))),
            res@.len() == indices_where(k as int, p).len(),
            forall|j: int|
                0 <= j < indices_where(k as int, p).len() ==> unmapped_matches(
                    #[trigger] res@[j],
                    users@[indices_where(k as int, p)[j]],
                ),
        decreases users@.len() - k,
    {
        let u = &users[k];
        let is_current = match current {
            Some(c) => str_eq(c, u.external_user_id.as_str()),
            None => false,
        };
        let unmapped = !is_current && !has_mapping(mapping, u.external_user_id.as_str());
        assert(unmapped == p(k as int));
        if unmapped {
            res.push(UnmappedUser {
                external_user_id: u.external_user_id.clone(),
                first_name: u.first_name.clone(),
                last_name: u.last_name.clone(),
            });
        }
        k = k + 1;
    }
    res
}

pub open spec fn link_view(o: Option<String>) -> Option<Seq<char>> {
    match o {
        Some(s) => Some(s@),
        None => None,
    }
}

/// Whether one of the links is `id`, that is, whether some local
/// transaction links to `id`.
fn linked_in(
    links: &Vec<Option<String>>,
    id: &str,
    txns: Ghost<Seq<LocalTransactionGroup>>,
) -> (res: bool)
    requires
        links@.len() == txns@.len(),
        forall|t: int| 0 <= t < txns@.len() ==> link_view(#[trigger] links@[t]) == txn_link(txns@[t]),
    ensures
        res == linked_by_any(txns@, id@),
{
    let mut t: usize = 0;
    while t < links.len()
        invariant
            t <= links@.len(),
            links@.len() == txns@.len(),
            forall|u: int| 0 <= u < txns@.len() ==> link_view(#[trigger] links@[u]) == txn_link(txns@[u]),
            forall|u: int| 0 <= u < t ==> txn_link(#[trigger] txns@[u]) != Some(id@),
        decreases links@.len() - t,
    {
        match &links[t] {
            Some(l) => {
                if str_eq(l.as_str(), id) {
                    assert(link_view(links@[t as int]) == Some(id@));
                    return true;
                }
            },
            None => {},
        }
        assert(link_view(links@[t as int]) != Some(id@));
        t = t + 1;
    }
    false
}

/// Classifies local transactions and external expenses into synced,
/// drifted, missing on external and missing on local, and counts them.
///
/// A local transaction is linked through the first of its splits that has a
/// sync record; where several external expenses carry the linked ID, the
/// last one is compared. Users of an expense missing locally are reported
/// as unmapped when they are not the current user and no local person is
/// mapped to them.
pub fn classify(
    local_txns: &[LocalTransactionGroup],
    external_expenses: &[ExternalExpenseDetail],
    user_mapping: &Vec<(String, String)>,
    current_user_external_id: Option<&str>,
) -> (report: DriftReport)
    requires
        forall|t: int| 0 <= t < local_txns@.len() ==> amounts_in_range(#[trigger] local_txns@[t]),
        local_txns@.len() + external_expenses@.len() <= i64::MAX,
    ensures
        report_matches(
            report,
            local_txns@,
            external_expenses@,
            user_mapping@,
            opt_text(current_user_external_id),
        ),
        report.summary.total_local == local_txns@.len(),
{
    let ghost txns = local_txns@;
    let ghost exts = external_expenses@;
    let ghost cur = opt_text(current_user_external_id);
    let ghost ps = |t: int| is_synced(txns[t], exts, cur);
    let ghost pd = |t: int| is_drifted(txns[t], exts, cur);
    let ghost pm = |t: int| is_missing_on_external(txns[t], exts);
    let mut links: Vec<Option<String>> = Vec::new();
    let mut synced: i64 = 0;
    let mut drifted: Vec<DriftedItem> = Vec::new();
    let mut missing_ext: Vec<MissingOnExternal> = Vec::new();
    let mut i: usize = 0;
    while i < local_txns.len()
        invariant
            txns == local_txns@,
            exts == external_expenses@,
            cur == opt_text(current_user_external_id),
            ps == (|t: int| is_synced(txns[t], exts, cur)),
            pd == (|t: int| is_drifted(txns[t], exts, cur)),
            pm == (|t: int| is_missing_on_external(txns[t], exts)),
            forall|t: int| 0 <= t < txns.len() ==> amounts_in_range(#[trigger] txns[t]),
            txns.len() + exts.len() <= i64::MAX,
            i <= txns.len(),
            links@.len() == i,
            forall|t: int| 0 <= t < i ==> link_view(#[trigger] links@[t]) == txn_link(txns[t]),
            synced == indices_where(i as int, ps).len(),
            indices_where(i as int, ps).len() + indices_where(i as int, pd).len() + indices_where(
                i as int,
                pm,
            ).len() == i,
            drifted@.len() == indices_where(i as int, pd).len(),
            forall|k: int|
                0 <= k < indices_where(i as int, pd).len() ==> drifted_item_matches(
                    #[trigger] drifted@[k],
                    txns[indices_where(i as int, pd)[k]],
                    exts[linked_expense(txns[indices_where(i as int, pd)[k]], exts).unwrap()],
                ),
            missing_ext@.len() == indices_where(i as int, pm).len(),
            forall|k: int|
                0 <= k < indices_where(i as int, pm).len() ==> missing_external_matches(
                    #[trigger] missing_ext@[k],
                    txns[indices_where(i as int, pm)[k]],
                ),
        decreases txns.len() - i,
    {
        let txn = &local_txns[i];
        let link = link_of(txn);
        let mut expense: Option<usize> = None;
        match &link {
            Some(id) => {
                expense = find_expense_index(external_expenses, id.as_str());
            },
            None => {},
        }
        proof {
            if let Some(id) = txn_link(*txn) {
                lemma_find_expense(exts, id, exts.len() as int);
            }
        }
        assert(match expense {
            Some(j) => linked_expense(*txn, exts) == Some(j as int),
            None => linked_expense(*txn, exts) is None,
        });
        match expense {
            Some(j) => {
                let e = &external_expenses[j];
                if compare_splits(txn, e, current_user_external_id) {
                    assert(ps(i as int));
                    synced = synced + 1;
                } else {
                    assert(pd(i as int));
                    let item = DriftedItem {
                        transaction_id: txn.transaction_id,
                        transaction_title: txn.transaction_title.clone(),
                        transaction_date: txn.transaction_date,
                        local_amount: decimal_to_string_2dp(&txn.transaction_amount),
                        external_expense_id: e.external_expense_id.clone(),
                        external_description: e.description.clone(),
                        external_cost: e.cost.clone(),
                        external_date: e.date.clone(),
                        local_splits: local_split_infos(&txn.splits),
                        external_splits: external_split_infos(&e.users),
                    };
                    drifted.push(item);
                }
            },
            None => {
                assert(pm(i as int));
                let item = MissingOnExternal {
                    transaction_id: txn.transaction_id,
                    transaction_title: txn.transaction_title.clone(),
                    transaction_date: txn.transaction_date,
                    amount: decimal_to_string_2dp(&txn.transaction_amount),
                    splits: local_split_infos(&txn.splits),
                };
                missing_ext.push(item);
            },
        }
        links.push(link);
        i = i + 1;
    }
    let ghost pl = |j: int| !linked_by_any(txns, exts[j].external_expense_id@);
    let mut missing_local: Vec<MissingOnLocal> = Vec::new();
    let mut j: usize = 0;
    while j < external_expenses.len()
        invariant
            txns == local_txns@,
            exts == external_expenses@,
            cur == opt_text(current_user_external_id),
            pl == (|j: int| !linked_by_any(txns, exts[j].external_expense_id@)),
            links@.len() == txns.len(),
            forall|t: int| 0 <= t < txns.len() ==> link_view(#[trigger] links@[t]) == txn_link(txns[t]),
            j <= exts.len(),
            missing_local@.len() == indices_where(j as int, pl).len(),
            forall|k: int|
                0 <= k < indices_where(j as int, pl).len() ==> missing_local_matches(
                    #[trigger] missing_local@[k],
                    exts[indices_where(j as int, pl)[k]],
                    user_mapping@,
                    cur,
                ),
        decreases exts.len() - j,
    {
        let e = &external_expenses[j];
        let linked = linked_in(&links, e.external_expense_id.as_str(), Ghost(txns));
        if !linked {
            assert(pl(j as int));
            let item = MissingOnLocal {
                external_expense_id: e.external_expense_id.clone(),
                description: e.description.clone(),
                cost: e.cost.clone(),
                currency_code: e.currency_code.clone(),
                date: e.date.clone(),
                users: external_split_infos(&e.users),
                unmapped_users: unmapped_users_of(&e.users, user_mapping, current_user_external_id),
            };
            missing_local.push(item);
        }
        j = j + 1;
    }
    proof {
        lemma_indices_where(txns.len() as int, pd);
        lemma_indices_where(txns.len() as int, pm);
        lemma_indices_where(exts.len() as int, pl);
    }
    let drifted_count = drifted.len() as i64;
    let missing_ext_count = missing_ext.len() as i64;
    let missing_local_count = missing_local.len() as i64;
    let total_local = synced + drifted_count + missing_ext_count;
    let total_external = synced + drifted_count + missing_local_count;
    DriftReport {
        summary: DriftSummary {
            total_local,
            total_external,
            synced,
            drifted: drifted_count,
            missing_on_external: missing_ext_count,
            missing_on_local: missing_local_count,
        },
        drifted,
        missing_on_external: missing_ext,
        missing_on_local: missing_local,
    }
}

/// Whether `id` is one of the texts `ids`.
pub open spec fn id_among(ids: Seq<Seq<char>>, id: Seq<char>) -> bool {
    exists|k: int| 0 <= k < ids.len() && ids[k] == id
}

/// The IDs of expenses.
pub open spec fn expense_ids(es: Seq<ExternalExpenseDetail>) -> Seq<Seq<char>> {
    es.map_values(|e: ExternalExpenseDetail| e.external_expense_id@)
}

/// The expenses of the first `n` of a page that a drift check keeps, in
/// order: those relevant to the current user whose ID is neither among
/// `seen` nor among those kept before.
pub open spec fn page_kept(seen: Seq<Seq<char>>, page: Seq<ExternalExpenseDetail>, relevant: Seq<bool>, n: int) -> Seq<
    ExternalExpenseDetail,
>
    decreases n,
{
    if n <= 0 {
        Seq::empty()
    } else {
        let prev = page_kept(seen, page, relevant, n - 1);
        let e = page[n - 1];
        if relevant[n - 1] && !id_among(seen, e.external_expense_id@) && !id_among(expense_ids(prev), e.external_expense_id@) {
            prev.push(e)
        } else {
            prev
        }
    }
}

fn text_in(ids: &Vec<String>, id: &str) -> (res: bool)
    ensures
        res == id_among(ids@.map_values(|s: String| s@), id@),
{
    let ghost v = ids@.map_values(|s: String| s@);
    let mut k: usize = 0;
    while k < ids.len()
        invariant
            k <= ids@.len(),
            v == ids@.map_values(|s: String| s@),
            forall|j: int| 0 <= j < k ==> v[j] != id@,
        decreases ids@.len() - k,
    {
        if str_eq(ids[k].as_str(), id) {
            assert(v[k as int] == id@);
            return true;
        }
        k = k + 1;
    }
    false
}

fn id_kept(kept: &Vec<ExternalExpenseDetail>, id: &str) -> (res: bool)
    ensures
        res == id_among(expense_ids(kept@), id@),
{
    let ghost v = expense_ids(kept@);
    let mut k: usize = 0;
    while k < kept.len()
        invariant
            k <= kept@.len(),
            v == expense_ids(kept@),
            forall|j: int| 0 <= j < k ==> v[j] != id@,
        decreases kept@.len() - k,
    {
        if str_eq(kept[k].external_expense_id.as_str(), id) {
            assert(v[k as int] == id@);
            return true;
        }
        k = k + 1;
    }
    false
}

/// Merges one page of a provider's expense listing into a drift check: the
/// expenses kept (`page_kept`: relevant, and with an ID not seen before nor
/// repeated on the page), whose IDs are distinct and new; and whether the
/// listing is done (the page was shorter than `limit`).
pub fn merge_expense_page(
    seen: &Vec<String>,
    page: Vec<ExternalExpenseDetail>,
    relevant: &Vec<bool>,
    limit: usize,
) -> (res: (Vec<ExternalExpenseDetail>, bool))
    requires
        relevant@.len() == page@.len(),
    ensures
        res.0@ == page_kept(seen@.map_values(|s: String| s@), page@, relevant@, page@.len() as int),
        forall|i: int, j: int|
            0 <= i < j < res.0@.len() ==> (#[trigger] res.0@[i]).external_expense_id@ != (#[trigger] res.0@[j]).external_expense_id@,
        forall|i: int|
            0 <= i < res.0@.len() ==> !id_among(seen@.map_values(|s: String| s@), (#[trigger] res.0@[i]).external_expense_id@),
        res.1 == (page@.len() < limit),
{
    let ghost sv = seen@.map_values(|s: String| s@);
    let ghost all = page@;
    let n = page.len();
    let mut rest = page;
    let mut kept: Vec<ExternalExpenseDetail> = Vec::new();
    let mut k: usize = 0;
    while rest.len() > 0
        invariant
            n == all.len(),
            relevant@.len() == all.len(),
            sv == seen@.map_values(|s: String| s@),
            k + rest@.len() == n,
            rest@ == all.skip(k as int),
            kept@ == page_kept(sv, all, relevant@, k as int),
            forall|i: int, j: int|
                0 <= i < j < kept@.len() ==> (#[trigger] kept@[i]).external_expense_id@ != (#[trigger] kept@[j]).external_expense_id@,
            forall|i: int| 0 <= i < kept@.len() ==> !id_among(sv, (#[trigger] kept@[i]).external_expense_id@),
        decreases rest@.len(),
    {
        let e = rest.remove(0);
        assert(e == all[k as int]);
        let keep = relevant[k] && !text_in(seen, e.external_expense_id.as_str()) && !id_kept(&kept, e.external_expense_id.as_str());
        if keep {
            proof {
                assert forall|i: int| 0 <= i < kept@.len() implies kept@[i].external_expense_id@ != e.external_expense_id@ by {
                    assert(expense_ids(kept@)[i] == kept@[i].external_expense_id@);
                }
            }
            kept.push(e);
        }
        k = k + 1;
    }
    (kept, n < limit)
}

/// Whether the amounts of `txn` can be negated and summed with `i128`
/// mantissas (`amounts_in_range`).
pub fn amounts_fit(txn: &LocalTransactionGroup) -> (res: bool)
    ensures
        res == amounts_in_range(*txn),
{
    if txn.transaction_amount.mantissa == i128::MIN {
        return false;
    }
    let mut amounts: Vec<Decimal> = Vec::new();
    let mut k: usize = 0;
    while k < txn.splits.len()
        invariant
            k <= txn.splits@.len(),
            txn.transaction_amount.mantissa != i128::MIN,
            forall|j: int| 0 <= j < k ==> (#[trigger] txn.splits@[j]).split_amount.mantissa != i128::MIN,
            amounts@ == abs_split_amounts(txn.splits@).take(k as int),
        decreases txn.splits@.len() - k,
    {
        if txn.splits[k].split_amount.mantissa == i128::MIN {
            return false;
        }
        let a = txn.splits[k].split_amount.abs();
        amounts.push(a);
        k = k + 1;
    }
    assert(amounts@ == abs_split_amounts(txn.splits@));
    let total = match sum(&amounts) {
        Some(t) => t,
        None => {
            return false;
        },
    };
    assert(total == splits_total(txn.splits@));
    let abs_amount = txn.transaction_amount.abs();
    crate::decimal::sub(&abs_amount, &total).is_some()
}

/// `classify`, for transactions whose amounts the library may not hold:
/// `None` where the amounts of one of them cannot be summed with `i128`
/// mantissas, else the report.
pub fn classify_in_range(
    local_txns: &[LocalTransactionGroup],
    external_expenses: &[ExternalExpenseDetail],
    user_mapping: &Vec<(String, String)>,
    current_user_external_id: Option<&str>,
) -> (res: Option<DriftReport>)
    requires
        local_txns@.len() + external_expenses@.len() <= i64::MAX,
    ensures
        match res {
            Some(report) => {
                &&& forall|t: int| 0 <= t < local_txns@.len() ==> amounts_in_range(#[trigger] local_txns@[t])
                &&& report_matches(
                    report,
                    local_txns@,
                    external_expenses@,
                    user_mapping@,
                    opt_text(current_user_external_id),
                )
                &&& report.summary.total_local == local_txns@.len()
            },
            None => exists|t: int| 0 <= t < local_txns@.len() && !amounts_in_range(#[trigger] local_txns@[t]),
        },
{
    let mut i: usize = 0;
    while i < local_txns.len()
        invariant
            i <= local_txns@.len(),
            forall|t: int| 0 <= t < i ==> amounts_in_range(#[trigger] local_txns@[t]),
        decreases local_txns@.len() - i,
    {
        if !amounts_fit(&local_txns[i]) {
            return None;
        }
        i = i + 1;
    }
    Some(classify(local_txns, external_expenses, user_mapping, current_user_external_id))
}

} // verus!
