//! Debts between the user and the people they share expenses with: a
//! person's debt is the sum of their split amounts (positive: they owe the
//! user; negative: the user owes them), and a settlement records a payment
//! that offsets it.
use vstd::prelude::*;
use crate::decimal::{decimal_text, decimal_to_string, fits_i128, parse_decimal, parsed_decimal, sum_in_range, total, total_of, Decimal};
use crate::errors::{api_error_view, ApiError, ApiErrorView};
use crate::selection::indices_where;
use crate::text::{owned, push_str};

verus! {

/// The debt of one person, as listed for the user.
#[derive(Debug, Clone)]
pub struct PersonDebt {
    pub person_id: u128,
    pub person_name: String,
    /// Positive: they owe the user; negative: the user owes them.
    pub debt_amount: String,
}

/// A person of the user, with the amounts of their splits.
#[derive(Debug, Clone)]
pub struct PersonSplits {
    pub person_id: u128,
    pub person_name: String,
    pub amounts: Vec<Decimal>,
}

/// Checks that the person (owned by `person_owner`) is the user's.
pub fn check_person_owner(person_owner: u128, user_id: u128) -> (res: Result<(), ApiError>)
    ensures
        person_owner == user_id ==> res is Ok,
        person_owner != user_id ==> (res matches Err(e) && api_error_view(e) == ApiErrorView::Forbidden(
            "Person does not belong to user"@,
        )),
{
    if person_owner != user_id {
        Err(ApiError::Forbidden(owned("Person does not belong to user")))
    } else {
        Ok(())
    }
}

/// The debt of a person of the user: the sum of their split amounts, as
/// text.
pub fn calculate_debt(person_owner: u128, user_id: u128, split_amounts: &Vec<Decimal>) -> (res: Result<String, ApiError>)
    requires
        sum_in_range(split_amounts@),
    ensures
        person_owner != user_id ==> (res matches Err(e) && api_error_view(e) == ApiErrorView::Forbidden(
            "Person does not belong to user"@,
        )),
        person_owner == user_id ==> (res matches Ok(s) && s@ == decimal_text(
            total_of(split_amounts@).mantissa as int,
            total_of(split_amounts@).scale as int,
        )),
{
    check_person_owner(person_owner, user_id)?;
    let t = total(split_amounts);
    Ok(decimal_to_string(&t))
}

/// `p` has a debt: its splits do not sum to zero.
pub open spec fn has_debt(p: PersonSplits) -> bool {
    total_of(p.amounts@).mantissa != 0
}

/// `d` lists the debt of `p`.
pub open spec fn debt_listed(d: PersonDebt, p: PersonSplits) -> bool {
    &&& d.person_id == p.person_id
    &&& d.person_name@ == p.person_name@
    &&& d.debt_amount@ == decimal_text(total_of(p.amounts@).mantissa as int, total_of(p.amounts@).scale as int)
}

/// The debts of the user: for each of their people, in order, the sum of
/// the person's splits, leaving out those whose sum is zero.
pub fn collect_debts(people: &Vec<PersonSplits>) -> (res: Vec<PersonDebt>)
    requires
        forall|k: int| 0 <= k < people@.len() ==> sum_in_range((#[trigger] people@[k]).amounts@),
    ensures
        ({
            let chosen = indices_where(people@.len() as int, |k: int| has_debt(people@[k]));
            &&& res@.len() == chosen.len()
            &&& forall|i: int| 0 <= i < res@.len() ==> debt_listed(#[trigger] res@[i], people@[chosen[i]])
        }),
{
    let ghost p = |k: int| has_debt(people@[k]);
    let mut out: Vec<PersonDebt> = Vec::new();
    let mut k: usize = 0;
    while k < people.len()
        invariant
            k <= people@.len(),
            forall|j: int| 0 <= j < people@.len() ==> sum_in_range((#[trigger] people@[j]).amounts@),
            p == (|k: int| has_debt(people@[k])),
            out@.len() == indices_where(k as int, p).len(),
            forall|i: int| 0 <= i < out@.len() ==> debt_listed(#[trigger] out@[i], people@[indices_where(k as int, p)[i]]),
        decreases people@.len() - k,
    {
        let person = &people[k];
        let t = total(&person.amounts);
        let ghost before = indices_where(k as int, p);
        assert(indices_where(k + 1, p) == if p(k as int) { before.push(k as int) } else { before });
        if t.mantissa != 0 {
            out.push(
                PersonDebt {
                    person_id: person.person_id,
                    person_name: person.person_name.clone(),
                    debt_amount: decimal_to_string(&t),
                },
            );
        }
        k = k + 1;
    }
    out
}

/// The records of a settlement with a person: a transaction of `amount`
/// (positive: the user received a payment; negative: the user paid) and a
/// split of the opposite amount, which offsets the debt.
#[derive(Debug, Clone)]
pub struct SettlementPlan {
    pub title: String,
    pub notes: String,
    pub amount: Decimal,
    pub split_amount: Decimal,
}

/// Checks that the person and the account of a settlement are the user's.
pub fn check_settlement_owners(person_owner: u128, account_owner: u128, user_id: u128) -> (res: Result<(), ApiError>)
    ensures
        person_owner != user_id ==> (res matches Err(e) && api_error_view(e) == ApiErrorView::Forbidden(
            "Person does not belong to user"@,
        )),
        person_owner == user_id && account_owner != user_id ==> (res matches Err(e) && api_error_view(e)
            == ApiErrorView::Forbidden("Account does not belong to user"@)),
        person_owner == user_id && account_owner == user_id ==> res is Ok,
{
    check_person_owner(person_owner, user_id)?;
    if account_owner != user_id {
        return Err(ApiError::Forbidden(owned("Account does not belong to user")));
    }
    Ok(())
}

/// The records of a settlement with the person named `person_name`, for the
/// amount read from `amount_text`; unreadable text, and an amount whose
/// mantissa (or its negation) leaves the `i128` range, is a validation
/// error.
pub fn plan_settlement(person_name: &str, amount_text: &str) -> (res: Result<SettlementPlan, ApiError>)
    ensures
        match parsed_decimal(amount_text@) {
            Some(p) => if i128::MIN < p.0 <= i128::MAX {
                res matches Ok(plan) && {
                    &&& plan.title@ == "Debt settlement with "@ + person_name@
                    &&& plan.notes@ == "Settlement of debt with "@ + person_name@
                    &&& plan.amount.mantissa == p.0 && plan.amount.scale == p.1
                    &&& plan.split_amount.mantissa == -p.0 && plan.split_amount.scale == p.1
                }
            } else {
                res matches Err(e) && api_error_view(e) == ApiErrorView::Validation("Invalid settlement amount"@)
            },
            None => res matches Err(e) && api_error_view(e) == ApiErrorView::Validation(
                "Invalid settlement amount"@,
            ),
        },
{
    let amount = match parse_decimal(amount_text) {
        Some(d) => d,
        None => {
            return Err(ApiError::Validation(owned("Invalid settlement amount")));
        },
    };
    if amount.mantissa == i128::MIN {
        return Err(ApiError::Validation(owned("Invalid settlement amount")));
    }
    let mut title = owned("Debt settlement with ");
    push_str(&mut title, person_name);
    let mut notes = owned("Settlement of debt with ");
    push_str(&mut notes, person_name);
    let split_amount = amount.neg();
    Ok(SettlementPlan { title, notes, amount, split_amount })
}

} // verus!
