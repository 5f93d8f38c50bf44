//! The rules of creating, updating, deleting and restoring transactions.
//!
//! The application loads and stores rows; the library decides the signs of
//! splits, what an update does to the existing splits, whether a request is
//! allowed and when a deleted transaction is purged.
use vstd::prelude::*;
use crate::decimal::{abs_spec, sign_of, Decimal};
use crate::errors::{api_error_view, ApiError, ApiErrorView};
use crate::models::Timestamp;
use crate::selection::{first_where, lemma_first_where};
use crate::text::{i64_text, int_text, owned, push_str};

verus! {

/// Soft-deleted transactions are purged after this many days unless the
/// configuration says otherwise.
pub const DEFAULT_RETENTION_DAYS: i64 = 30;

/// The soft-delete retention period: the configured number of days, or 30
/// when the configuration cannot be loaded.
pub fn get_retention_days(configured: Option<i64>) -> (res: i64)
    ensures
        res == match configured {
            Some(d) => d,
            None => 30,
        },
{
    match configured {
        Some(d) => d,
        None => DEFAULT_RETENTION_DAYS,
    }
}

/// When a transaction soft-deleted at `deleted_at` is purged:
/// `deleted_at + retention_days` days.
pub fn compute_permanent_delete_at(deleted_at: Timestamp, retention_days: i64) -> (res: Timestamp)
    requires
        i64::MIN <= retention_days * 86400 <= i64::MAX,
        i64::MIN <= deleted_at.seconds + retention_days * 86400 <= i64::MAX,
    ensures
        res.seconds == deleted_at.seconds + retention_days * 86400,
        res.nanos == deleted_at.nanos,
{
    Timestamp { seconds: deleted_at.seconds + retention_days * 86400, nanos: deleted_at.nanos }
}

/// The stored amount of a split: for an expense (amount ≤ 0) the person
/// owes the user, so the split is `|amount|`; for income (amount > 0) the
/// user owes the person, so it is `-|amount|`.
pub open spec fn signed_split(transaction_amount: Decimal, split_amount: Decimal) -> Decimal {
    let a = abs_spec(split_amount);
    if sign_of(transaction_amount) > 0 {
        Decimal { mantissa: (-a.mantissa) as i128, scale: a.scale }
    } else {
        a
    }
}

/// The stored amount of a split of a transaction of `transaction_amount`
/// (`signed_split`).
pub fn signed_split_amount(transaction_amount: &Decimal, split_amount: &Decimal) -> (res: Decimal)
    requires
        split_amount.mantissa != i128::MIN,
    ensures
        res == signed_split(*transaction_amount, *split_amount),
{
    let a = split_amount.abs();
    if transaction_amount.signum() > 0 {
        a.neg()
    } else {
        a
    }
}

/// Checks that a row belongs to the user: `Unauthorized(message)` otherwise.
pub fn check_owner(owner_id: u128, user_id: u128, message: &str) -> (res: Result<(), ApiError>)
    ensures
        owner_id == user_id ==> res is Ok,
        owner_id != user_id ==> (res matches Err(e) && api_error_view(e) == ApiErrorView::Unauthorized(message@)),
{
    if owner_id == user_id {
        Ok(())
    } else {
        Err(ApiError::Unauthorized(owned(message)))
    }
}

/// Checks that a transaction is the user's: `Forbidden("Access denied")`
/// otherwise.
pub fn check_access(owner_id: u128, user_id: u128) -> (res: Result<(), ApiError>)
    ensures
        owner_id == user_id ==> res is Ok,
        owner_id != user_id ==> (res matches Err(e) && api_error_view(e) == ApiErrorView::Forbidden("Access denied"@)),
{
    if owner_id == user_id {
        Ok(())
    } else {
        Err(ApiError::Forbidden(owned("Access denied")))
    }
}

/// Checks that a transaction can be restored: it must be in the trash.
pub fn check_restorable(is_deleted: bool) -> (res: Result<(), ApiError>)
    ensures
        is_deleted ==> res is Ok,
        !is_deleted ==> (res matches Err(e) && api_error_view(e) == ApiErrorView::BadRequest(
            "Transaction is not in trash"@,
        )),
{
    if is_deleted {
        Ok(())
    } else {
        Err(ApiError::BadRequest(owned("Transaction is not in trash")))
    }
}

/// A split requested for a transaction: a person and the amount they share.
#[derive(Debug, Clone, Copy, PartialEq, Eq, Structural)]
pub struct SplitInput {
    pub person_id: u128,
    pub amount: Decimal,
}

/// A split as stored: its ID, its person and its amount.
#[derive(Debug, Clone, Copy, PartialEq, Eq, Structural)]
pub struct StoredSplit {
    pub id: u128,
    pub person_id: u128,
    pub amount: Decimal,
}

/// What an update does to one requested split.
#[derive(Debug, Clone, Copy, PartialEq, Eq, Structural)]
pub enum SplitWrite {
    /// The person already has a split: change its amount (its ID and sync
    /// records stay).
    Update { split_id: u128, amount: Decimal },
    /// The person has no split yet: create one.
    Create { person_id: u128, amount: Decimal },
}

/// The writes of an update, in request order, and the splits to delete.
#[derive(Debug, Clone)]
pub struct SplitUpsertPlan {
    pub writes: Vec<SplitWrite>,
    pub deletes: Vec<u128>,
}

/// The existing split of `person` (the last one, where several are
/// listed), if any.
pub open spec fn existing_split_of(existing: Seq<StoredSplit>, person: u128, n: int) -> Option<StoredSplit>
    decreases n,
{
    if n <= 0 {
        None
    } else if existing[n - 1].person_id == person {
        Some(existing[n - 1])
    } else {
        existing_split_of(existing, person, n - 1)
    }
}

/// Whether two requested splits name the same person.
pub open spec fn has_duplicate_person(inputs: Seq<SplitInput>) -> bool {
    exists|i: int, j: int| 0 <= i < j < inputs.len() && (#[trigger] inputs[i]).person_id == (#[trigger] inputs[j]).person_id
}

/// Whether `person` is requested.
pub open spec fn requested(inputs: Seq<SplitInput>, person: u128) -> bool {
    exists|i: int| 0 <= i < inputs.len() && (#[trigger] inputs[i]).person_id == person
}

/// The write for requested split `input` of a transaction now of
/// `transaction_amount`.
pub open spec fn write_for(input: SplitInput, existing: Seq<StoredSplit>, transaction_amount: Decimal) -> SplitWrite {
    let amount = signed_split(transaction_amount, input.amount);
    match existing_split_of(existing, input.person_id, existing.len() as int) {
        Some(s) => SplitWrite::Update { split_id: s.id, amount },
        None => SplitWrite::Create { person_id: input.person_id, amount },
    }
}

/// The IDs of the existing splits whose person is no longer requested (for
/// a person listed twice, the split the lookup keeps).
pub open spec fn deletes_match(deletes: Seq<u128>, existing: Seq<StoredSplit>, inputs: Seq<SplitInput>) -> bool {
    let keep = |k: int| !requested(inputs, existing[k].person_id) && existing_split_of(
        existing,
        existing[k].person_id,
        existing.len() as int,
    ) == Some(existing[k]);
    deletes == crate::selection::indices_where(existing.len() as int, keep).map_values(|k: int| existing[k].id)
}

/// Plans the splits of an update: refused with a validation error when a
/// person is requested twice; otherwise each requested split updates the
/// person's existing split or creates one (signed by `signed_split`), and
/// existing splits of persons no longer requested are deleted.
pub fn plan_split_upsert(
    inputs: &Vec<SplitInput>,
    existing: &Vec<StoredSplit>,
    transaction_amount: &Decimal,
) -> (res: Result<SplitUpsertPlan, ApiError>)
    requires
        forall|i: int| 0 <= i < inputs@.len() ==> (#[trigger] inputs@[i]).amount.mantissa != i128::MIN,
    ensures
        has_duplicate_person(inputs@) ==> (res matches Err(e) && api_error_view(e) == ApiErrorView::Validation(
            "Duplicate person_id in splits"@,
        )),
        !has_duplicate_person(inputs@) ==> (res matches Ok(plan) && plan.writes@.len() == inputs@.len() && (forall|i: int|
            0 <= i < inputs@.len() ==> #[trigger] plan.writes@[i] == write_for(inputs@[i], existing@, *transaction_amount))
            && deletes_match(plan.deletes@, existing@, inputs@)),
{
    let mut i: usize = 0;
    while i < inputs.len()
        invariant
            i <= inputs@.len(),
            forall|a: int, b: int| 0 <= a < b < i ==> (#[trigger] inputs@[a]).person_id != (#[trigger] inputs@[b]).person_id,
        decreases inputs@.len() - i,
    {
        let mut j: usize = 0;
        while j < i
            invariant
                j <= i < inputs@.len(),
                forall|a: int| 0 <= a < j ==> (#[trigger] inputs@[a]).person_id != inputs@[i as int].person_id,
            decreases i - j,
        {
            if inputs[j].person_id == inputs[i].person_id {
                assert(has_duplicate_person(inputs@)) by {
                    assert(inputs@[j as int].person_id == inputs@[i as int].person_id);
                }
                return Err(ApiError::Validation(owned("Duplicate person_id in splits")));
            }
            j = j + 1;
        }
        i = i + 1;
    }
    let mut writes: Vec<SplitWrite> = Vec::new();
    let mut k: usize = 0;
    while k < inputs.len()
        invariant
            k <= inputs@.len(),
            forall|i: int| 0 <= i < inputs@.len() ==> (#[trigger] inputs@[i]).amount.mantissa != i128::MIN,
            writes@.len() == k,
            forall|i: int| 0 <= i < k ==> #[trigger] writes@[i] == write_for(inputs@[i], existing@, *transaction_amount),
        decreases inputs@.len() - k,
    {
        let input = inputs[k];
        let amount = signed_split_amount(transaction_amount, &input.amount);
        let w = match existing_split(existing, input.person_id) {
            Some(s) => SplitWrite::Update { split_id: s.id, amount },
            None => SplitWrite::Create { person_id: input.person_id, amount },
        };
        writes.push(w);
        k = k + 1;
    }
    let ghost keep = |k: int| !requested(inputs@, existing@[k].person_id) && existing_split_of(
        existing@,
        existing@[k].person_id,
        existing@.len() as int,
    ) == Some(existing@[k]);
    let mut deletes: Vec<u128> = Vec::new();
    let mut e: usize = 0;
    while e < existing.len()
        invariant
            e <= existing@.len(),
            keep == (|k: int| !requested(inputs@, existing@[k].person_id) && existing_split_of(
                existing@,
                existing@[k].person_id,
                existing@.len() as int,
            ) == Some(existing@[k])),
            deletes@ == crate::selection::indices_where(e as int, keep).map_values(|k: int| existing@[k].id),
        decreases existing@.len() - e,
    {
        let s = existing[e];
        let wanted = is_requested(inputs, s.person_id);
        let kept = match existing_split(existing, s.person_id) {
            Some(t) => t == s,
            None => false,
        };
        if !wanted && kept {
            assert(keep(e as int));
            deletes.push(s.id);
            assert(deletes@ =~= crate::selection::indices_where(e + 1, keep).map_values(|k: int| existing@[k].id));
        } else {
            assert(!keep(e as int));
        }
        e = e + 1;
    }
    assert(!has_duplicate_person(inputs@));
    Ok(SplitUpsertPlan { writes, deletes })
}

/// The existing split of `person` (`existing_split_of`).
fn existing_split(existing: &Vec<StoredSplit>, person: u128) -> (res: Option<StoredSplit>)
    ensures
        res == existing_split_of(existing@, person, existing@.len() as int),
{
    let mut found: Option<StoredSplit> = None;
    let mut k: usize = 0;
    while k < existing.len()
        invariant
            k <= existing@.len(),
            found == existing_split_of(existing@, person, k as int),
        decreases existing@.len() - k,
    {
        if existing[k].person_id == person {
            found = Some(existing[k]);
        }
        k = k + 1;
    }
    found
}

/// Whether `person` is requested.
fn is_requested(inputs: &Vec<SplitInput>, person: u128) -> (res: bool)
    ensures
        res == requested(inputs@, person),
{
    let mut k: usize = 0;
    while k < inputs.len()
        invariant
            k <= inputs@.len(),
            forall|i: int| 0 <= i < k ==> (#[trigger] inputs@[i]).person_id != person,
        decreases inputs@.len() - k,
    {
        if inputs[k].person_id == person {
            return true;
        }
        k = k + 1;
    }
    false
}

/// Checks a bulk creation's bank sync metadata: it must name one external
/// transaction for each transaction created.
pub fn check_bulk_metadata(external_ids_len: usize, requests_len: usize) -> (res: Result<(), ApiError>)
    requires
        external_ids_len <= i64::MAX,
        requests_len <= i64::MAX,
    ensures
        external_ids_len == requests_len ==> res is Ok,
        external_ids_len != requests_len ==> match res {
            Err(e) => api_error_view(e) == ApiErrorView::Validation(
                "bank_sync_metadata.external_transaction_ids length ("@ + int_text(external_ids_len as int)
                    + ") must match transactions length ("@ + int_text(requests_len as int) + ")"@,
            ),
            Ok(_) => false,
        },
{
    if external_ids_len == requests_len {
        return Ok(());
    }
    let mut m = owned("bank_sync_metadata.external_transaction_ids length (");
    push_str(&mut m, i64_text(external_ids_len as i64).as_str());
    push_str(&mut m, ") must match transactions length (");
    push_str(&mut m, i64_text(requests_len as i64).as_str());
    push_str(&mut m, ")");
    Err(ApiError::Validation(m))
}

/// The error of a bulk creation whose transaction at `index` is refused.
pub fn bulk_validation_error(index: usize, message: &str) -> (res: ApiError)
    requires
        index <= i64::MAX,
    ensures
        api_error_view(res) == ApiErrorView::Validation(
            "Transaction at index "@ + int_text(index as int) + ": "@ + message@,
        ),
{
    let mut m = owned("Transaction at index ");
    push_str(&mut m, i64_text(index as i64).as_str());
    push_str(&mut m, ": ");
    push_str(&mut m, message);
    ApiError::Validation(m)
}

} // verus!
