//! The decisions of "paid by others" (debt) transactions: who may use the
//! payer and the category, the amounts recorded, and the user's own share
//! of an expense.
use vstd::prelude::*;
use crate::decimal::{abs_spec, parse_decimal, readable_decimal, read_decimal, Decimal, fits_i128, parsed_decimal};
use crate::errors::{api_error_view, ApiError, ApiErrorView};
use crate::selection::{first_where, lemma_first_where};
use crate::services::split_sync_service::ExpenseParticipantInput;
use crate::text::{owned, str_eq, to_lowercase, unicode_lowercase};
use crate::models::Reply;
use crate::types::CurrencyCode;

verus! {

/// Checks that the payer (a person owned by `payer_owner`) and the
/// category, where one is given (owned by `category_owner`), belong to the
/// user.
pub fn check_debt_owners(user_id: u128, payer_owner: u128, category_owner: Option<u128>) -> (res: Result<(), ApiError>)
    ensures
        payer_owner != user_id ==> (res matches Err(e) && api_error_view(e) == ApiErrorView::Unauthorized(
            "Person does not belong to user"@,
        )),
        payer_owner == user_id && (category_owner matches Some(c) && c != user_id) ==> (res matches Err(e)
            && api_error_view(e) == ApiErrorView::Unauthorized("Category does not belong to user"@)),
        payer_owner == user_id && !(category_owner matches Some(c) && c != user_id) ==> res is Ok,
{
    if payer_owner != user_id {
        return Err(ApiError::Unauthorized(owned("Person does not belong to user")));
    }
    match category_owner {
        Some(c) => if c != user_id {
            return Err(ApiError::Unauthorized(owned("Category does not belong to user")));
        },
        None => {},
    }
    Ok(())
}

/// The amount of a debt transaction, read from its text; unreadable text,
/// and an amount whose mantissa leaves the `i128` range, is a validation
/// error.
pub fn debt_amount(amount_text: &str) -> (res: Result<Decimal, ApiError>)
    ensures
        match parsed_decimal(amount_text@) {
            Some(p) => if fits_i128(p.0) {
                res matches Ok(d) && d.mantissa == p.0 && d.scale == p.1
            } else {
                res matches Err(e) && api_error_view(e) == ApiErrorView::Validation("Invalid amount"@)
            },
            None => res matches Err(e) && api_error_view(e) == ApiErrorView::Validation("Invalid amount"@),
        },
{
    match parse_decimal(amount_text) {
        Some(d) => Ok(d),
        None => Err(ApiError::Validation(owned("Invalid amount"))),
    }
}

/// The total cost recorded for a debt: the given one where its text reads
/// as an amount (with an `i128` mantissa), otherwise the absolute amount of
/// the transaction.
pub fn debt_total_cost(total_cost_text: Option<&str>, amount: &Decimal) -> (res: Decimal)
    requires
        amount.mantissa != i128::MIN,
    ensures
        match total_cost_text {
            Some(t) => match parsed_decimal(t@) {
                Some(p) => if fits_i128(p.0) {
                    res.mantissa == p.0 && res.scale == p.1
                } else {
                    res == abs_spec(*amount)
                },
                None => res == abs_spec(*amount),
            },
            None => res == abs_spec(*amount),
        },
{
    match total_cost_text {
        Some(t) => match parse_decimal(t) {
            Some(d) => d,
            None => amount.abs(),
        },
        None => amount.abs(),
    }
}

/// The participant `k` is the user: it has no external user ID.
pub open spec fn is_local_participant(ps: Seq<ExpenseParticipantInput>, k: int) -> bool {
    ps[k].external_user_id is None
}

/// The participant `k` is not the payer: its name differs from the payer's
/// once both are lower-cased.
pub open spec fn is_not_payer(ps: Seq<ExpenseParticipantInput>, payer_name: Seq<char>, k: int) -> bool {
    unicode_lowercase(ps[k].name@) != unicode_lowercase(payer_name)
}

/// The user's owed share among the participants of an expense: that of the
/// first participant without an external user ID; else that of the first
/// whose name is not the payer's; else the first one's; else "0".
pub open spec fn user_owed_share_text(ps: Seq<ExpenseParticipantInput>, payer_name: Seq<char>) -> Seq<char> {
    match first_where(ps.len() as int, |k: int| is_local_participant(ps, k)) {
        Some(k) => ps[k].owed_share@,
        None => match first_where(ps.len() as int, |k: int| is_not_payer(ps, payer_name, k)) {
            Some(k) => ps[k].owed_share@,
            None => if ps.len() > 0 {
                ps[0].owed_share@
            } else {
                "0"@
            },
        },
    }
}

/// Where `p` holds at `i` and at no position before it, `i` is the first
/// position at which it holds.
proof fn lemma_first_at(i: int, n: int, p: spec_fn(int) -> bool)
    requires
        0 <= i < n,
        p(i),
        forall|j: int| 0 <= j < i ==> !#[trigger] p(j),
    ensures
        first_where(n, p) == Some(i),
{
    lemma_first_where(i, i, p);
    assert(first_where(i, p) is None);
    assert(first_where(i + 1, p) == Some(i));
    lemma_first_where(i + 1, n, p);
}

/// Finds the user's owed share among the participants of an expense (see
/// `user_owed_share_text`).
pub fn find_user_owed_share(participants: &Vec<ExpenseParticipantInput>, payer_name: &str) -> (res: String)
    ensures
        res@ == user_owed_share_text(participants@, payer_name@),
{
    let ghost ps = participants@;
    let ghost local = |k: int| is_local_participant(ps, k);
    let ghost other = |k: int| is_not_payer(ps, payer_name@, k);
    let mut i: usize = 0;
    while i < participants.len()
        invariant
            i <= ps.len(),
            ps == participants@,
            local == (|k: int| is_local_participant(ps, k)),
            forall|j: int| 0 <= j < i ==> !#[trigger] local(j),
        decreases ps.len() - i,
    {
        if participants[i].external_user_id.is_none() {
            proof {
                assert(local(i as int));
                lemma_first_at(i as int, ps.len() as int, local);
            }
            return participants[i].owed_share.clone();
        }
        assert(!local(i as int));
        i = i + 1;
    }
    proof {
        lemma_first_where(ps.len() as int, ps.len() as int, local);
        if first_where(ps.len() as int, local) is Some {
            let k = first_where(ps.len() as int, local)->0;
            assert(local(k));
        }
    }
    let payer_lower = to_lowercase(payer_name);
    let mut i: usize = 0;
    while i < participants.len()
        invariant
            i <= ps.len(),
            ps == participants@,
            payer_lower@ == unicode_lowercase(payer_name@),
            other == (|k: int| is_not_payer(ps, payer_name@, k)),
            local == (|k: int| is_local_participant(ps, k)),
            first_where(ps.len() as int, local) is None,
            forall|j: int| 0 <= j < i ==> !#[trigger] other(j),
        decreases ps.len() - i,
    {
        let name_lower = to_lowercase(participants[i].name.as_str());
        if !str_eq(name_lower.as_str(), payer_lower.as_str()) {
            proof {
                assert(other(i as int));
                lemma_first_at(i as int, ps.len() as int, other);
            }
            return participants[i].owed_share.clone();
        }
        assert(!other(i as int));
        i = i + 1;
    }
    proof {
        lemma_first_where(ps.len() as int, ps.len() as int, other);
        if first_where(ps.len() as int, other) is Some {
            let k = first_where(ps.len() as int, other)->0;
            assert(other(k));
        }
    }
    if participants.len() > 0 {
        participants[0].owed_share.clone()
    } else {
        owned("0")
    }
}

/// The amount of a debt transaction after its expense details change: the
/// user's owed share, negated (an expense). Unreadable text is a
/// validation error.
pub fn signed_owed_amount(owed_share: &str) -> (res: Result<Decimal, ApiError>)
    ensures
        match parsed_decimal(owed_share@) {
            Some(p) => fits_i128(p.0) ==> (res matches Ok(d) && d.mantissa == (if p.0 < 0 { p.0 } else { -p.0 })
                && d.scale == p.1),
            None => res matches Err(e) && api_error_view(e) == ApiErrorView::Validation(
                "Invalid owed_share for user"@,
            ),
        },
{
    match parse_decimal(owed_share) {
        Some(d) => if d.mantissa < 0 {
            Ok(d)
        } else {
            Ok(d.neg())
        },
        None => Err(ApiError::Validation(owned("Invalid owed_share for user"))),
    }
}

/// Sets the paid share of each participant who paid something
/// (`paid_something`, decided from the share's number) to the total cost,
/// so that the paid shares add up to the cost.
pub fn fix_paid_shares(participants: &mut Vec<ExpenseParticipantInput>, paid_something: &Vec<bool>, total_cost_text: &str)
    requires
        paid_something@.len() == old(participants)@.len(),
    ensures
        final(participants)@.len() == old(participants)@.len(),
        forall|k: int| 0 <= k < old(participants)@.len() ==> {
            let a = #[trigger] final(participants)@[k];
            let b = old(participants)@[k];
            &&& a.name == b.name
            &&& a.external_user_id == b.external_user_id
            &&& a.owed_share == b.owed_share
            &&& a.paid_share@ == if paid_something@[k] { total_cost_text@ } else { b.paid_share@ }
        },
{
    let ghost before = participants@;
    let mut k: usize = 0;
    while k < participants.len()
        invariant
            k <= participants@.len(),
            participants@.len() == before.len(),
            paid_something@.len() == before.len(),
            forall|j: int| k <= j < before.len() ==> #[trigger] participants@[j] == before[j],
            forall|j: int| 0 <= j < k ==> {
                let a = #[trigger] participants@[j];
                let b = before[j];
                &&& a.name == b.name
                &&& a.external_user_id == b.external_user_id
                &&& a.owed_share == b.owed_share
                &&& a.paid_share@ == if paid_something@[j] { total_cost_text@ } else { b.paid_share@ }
            },
        decreases before.len() - k,
    {
        if paid_something[k] {
            participants[k].paid_share = owned(total_cost_text);
        }
        k = k + 1;
    }
}

/// Checks that a transaction whose expense details change is the user's.
pub fn check_debt_transaction_owner(owner: u128, user_id: u128) -> (res: Result<(), ApiError>)
    ensures
        owner == user_id ==> res is Ok,
        owner != user_id ==> (res matches Err(e) && api_error_view(e) == ApiErrorView::Unauthorized(
            "Transaction does not belong to user"@,
        )),
{
    if owner != user_id {
        Err(ApiError::Unauthorized(owned("Transaction does not belong to user")))
    } else {
        Ok(())
    }
}

/// The next step of creating a debt transaction.
#[derive(Debug, PartialEq, Eq)]
pub enum DebtCreateStep {
    /// End with this error; nothing is written.
    Refuse(ApiError),
    /// Look up the owners of the payer person and, where one is given, of
    /// the category.
    CheckOwners,
    /// Write, on the user's DEBT account in this currency, the transaction
    /// with this signed amount, its metadata with this total cost, and one
    /// split to the payer with the same signed amount.
    Create(CurrencyCode, Decimal, Decimal),
}

/// Whether `res` ends the creation with an error of this view.
pub open spec fn debt_refuses(res: DebtCreateStep, v: ApiErrorView) -> bool {
    match res {
        DebtCreateStep::Refuse(e) => api_error_view(e) == v,
        _ => false,
    }
}

/// The next step of creating a debt transaction, from the user, the
/// request's amount, currency and total cost (as text), and the owners of
/// the payer and of the category once they are looked up. A zero amount is
/// refused before anything is looked up; the owners are checked before
/// anything is written; the amount must then read as an amount this
/// library holds (a mantissa inside the `i128` range).
pub fn create_debt_step(
    user_id: u128,
    amount_text: &str,
    currency: Option<CurrencyCode>,
    total_cost_text: Option<&str>,
    owners: &Reply<(u128, Option<u128>)>,
) -> (res: DebtCreateStep)
    ensures
        (parsed_decimal(amount_text@) matches Some(p) && p.0 == 0) ==> debt_refuses(
            res,
            ApiErrorView::Validation("Transaction amount cannot be zero"@),
        ),
        !(parsed_decimal(amount_text@) matches Some(p) && p.0 == 0) ==> match *owners {
            Reply::Pending => res == DebtCreateStep::CheckOwners,
            Reply::Got((payer_owner, category_owner)) => if payer_owner != user_id {
                debt_refuses(res, ApiErrorView::Unauthorized("Person does not belong to user"@))
            } else if category_owner matches Some(c) && c != user_id {
                debt_refuses(res, ApiErrorView::Unauthorized("Category does not belong to user"@))
            } else if !readable_decimal(amount_text@) {
                debt_refuses(res, ApiErrorView::Validation("Invalid amount"@))
            } else {
                let amount = read_decimal(amount_text@);
                match res {
                    DebtCreateStep::Create(c, a, t) => {
                        &&& c == match currency {
                            Some(x) => x,
                            None => CurrencyCode::Eur,
                        }
                        &&& a == amount
                        &&& match total_cost_text {
                            Some(tc) => match parsed_decimal(tc@) {
                                Some(p) => if fits_i128(p.0) {
                                    t.mantissa == p.0 && t.scale == p.1
                                } else {
                                    t == abs_spec(amount)
                                },
                                None => t == abs_spec(amount),
                            },
                            None => t == abs_spec(amount),
                        }
                    },
                    _ => false,
                }
            },
        },
{
    let parsed = parse_decimal(amount_text);
    match parsed {
        Some(d) => if d.mantissa == 0 {
            return DebtCreateStep::Refuse(ApiError::Validation(owned("Transaction amount cannot be zero")));
        },
        None => {},
    }
    let (payer_owner, category_owner) = match owners {
        Reply::Pending => {
            return DebtCreateStep::CheckOwners;
        },
        Reply::Got(o) => *o,
    };
    match check_debt_owners(user_id, payer_owner, category_owner) {
        Err(e) => {
            return DebtCreateStep::Refuse(e);
        },
        Ok(()) => {},
    }
    let amount = match parsed {
        Some(d) => if d.mantissa == i128::MIN {
            return DebtCreateStep::Refuse(ApiError::Validation(owned("Invalid amount")));
        } else {
            d
        },
        None => {
            return DebtCreateStep::Refuse(ApiError::Validation(owned("Invalid amount")));
        },
    };
    let total_cost = debt_total_cost(total_cost_text, &amount);
    let c = match currency {
        Some(x) => x,
        None => CurrencyCode::Eur,
    };
    DebtCreateStep::Create(c, amount, total_cost)
}

} // verus!
