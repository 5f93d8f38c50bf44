//! Duplicate detection and summary counts for a parsed statement.
//!
//! The duplicate check compares each parsed line with the transactions
//! already stored for the account (no comparison inside the file itself):
//! - HIGH: amount, date and time all match
//! - MEDIUM: amount and date match, the time differs
//! - LOW: amount matches and the dates are one day apart
//! Of the stored transactions a line matches, the first one with the highest
//! confidence is kept, and the line is flagged when that confidence is
//! MEDIUM or better.
use vstd::prelude::*;
use crate::decimal::{aligned, common_scale, read_decimal, readable_decimal, same_value, sign_of, Decimal};
use crate::text::{lemma_pow10_mono, pow10};
use crate::errors::ApiError;
use crate::models::{
    day_of, second_of_day, DuplicateMatch, ExistingTransaction, ImportSummary, MatchedField,
    ParsedTransaction, Timestamp,
};
use crate::types::confidence_level::{confidence_rank, flags_duplicate};
use crate::types::ConfidenceLevel;

verus! {

/// The confidence with which a line of `amount` at `date` matches a stored
/// transaction of `other_amount` at `other_date`, or `None`.
pub open spec fn match_confidence(
    amount: Decimal,
    date: Timestamp,
    other_amount: Decimal,
    other_date: Timestamp,
) -> Option<ConfidenceLevel> {
    if !same_value(amount, other_amount) {
        None
    } else if day_of(date) == day_of(other_date) {
        if second_of_day(date) == second_of_day(other_date) && date.nanos == other_date.nanos {
            Some(ConfidenceLevel::High)
        } else {
            Some(ConfidenceLevel::Medium)
        }
    } else if day_of(date) - day_of(other_date) == 1 || day_of(other_date) - day_of(date) == 1 {
        Some(ConfidenceLevel::Low)
    } else {
        None
    }
}

/// Two decimals of the same value have the same sign.
pub proof fn lemma_same_value_same_sign(a: Decimal, b: Decimal)
    requires
        same_value(a, b),
    ensures
        sign_of(a) == sign_of(b),
{
    let s = common_scale(a, b);
    let pa = pow10((s - a.scale) as nat);
    let pb = pow10((s - b.scale) as nat);
    lemma_pow10_mono(0, (s - a.scale) as nat);
    lemma_pow10_mono(0, (s - b.scale) as nat);
    reveal_with_fuel(pow10, 1);
    let x = a.mantissa as int;
    let y = b.mantissa as int;
    assert(x * pa == y * pb);
    assert(x < 0 ==> x * pa < 0) by (nonlinear_arith)
        requires
            pa >= 1,
    ;
    assert(x > 0 ==> x * pa > 0) by (nonlinear_arith)
        requires
            pa >= 1,
    ;
    assert(x == 0 ==> x * pa == 0) by (nonlinear_arith);
    assert(y < 0 ==> y * pb < 0) by (nonlinear_arith)
        requires
            pb >= 1,
    ;
    assert(y > 0 ==> y * pb > 0) by (nonlinear_arith)
        requires
            pb >= 1,
    ;
    assert(y == 0 ==> y * pb == 0) by (nonlinear_arith);
}

/// A stored transaction matches a statement line, at any confidence, only
/// when its amount has the line's value; in particular an amount of the
/// opposite sign (a refund against a purchase) never matches, whatever the
/// dates.
pub proof fn lemma_match_needs_same_amount(
    amount: Decimal,
    date: Timestamp,
    other_amount: Decimal,
    other_date: Timestamp,
)
    ensures
        match_confidence(amount, date, other_amount, other_date) is Some ==> same_value(amount, other_amount),
        sign_of(amount) != sign_of(other_amount) ==> match_confidence(amount, date, other_amount, other_date) is None,
{
    if same_value(amount, other_amount) {
        lemma_same_value_same_sign(amount, other_amount);
    }
}

/// A line that duplicate detection flags is flagged against a stored
/// transaction of the same amount: the match it records names a stored
/// transaction whose amount has the line's value.
pub proof fn lemma_flagged_match_same_amount(
    before: ParsedTransaction,
    existing: Seq<ExistingTransaction>,
    after: ParsedTransaction,
)
    requires
        all_readable(existing),
        checked_line(before, existing, after),
        after.duplicate_match != before.duplicate_match,
    ensures
        after.duplicate_match matches Some(m) && exists|k: int|
            0 <= k < existing.len() && existing[k].id == m.transaction_id && same_value(
                before.amount,
                read_decimal(#[trigger] existing[k].amount@),
            ),
{
    let amounts = stored_amounts(existing);
    let dates = stored_dates(existing);
    lemma_best_match_is_first_strongest(before.amount, before.date, amounts, dates, existing.len() as int);
    let b = best_existing_match(before, existing)->0;
    assert(amounts[b.0] == read_decimal(existing[b.0].amount@));
    lemma_match_needs_same_amount(before.amount, before.date, amounts[b.0], dates[b.0]);
}

/// The fields reported as matching at each confidence.
pub open spec fn matched_fields(c: ConfidenceLevel) -> Seq<MatchedField> {
    match c {
        ConfidenceLevel::High => seq![MatchedField::Date, MatchedField::Time, MatchedField::Amount],
        ConfidenceLevel::Medium => seq![MatchedField::Date, MatchedField::Amount],
        ConfidenceLevel::Low => seq![MatchedField::Amount],
    }
}

/// The best match among the first `n` stored transactions (amounts
/// `amounts`, dates `dates`): its index and confidence. A later candidate
/// replaces the current one only with a strictly higher confidence.
pub open spec fn best_match(
    amount: Decimal,
    date: Timestamp,
    amounts: Seq<Decimal>,
    dates: Seq<Timestamp>,
    n: int,
) -> Option<(int, ConfidenceLevel)>
    decreases n,
{
    if n <= 0 {
        None
    } else {
        let before = best_match(amount, date, amounts, dates, n - 1);
        match match_confidence(amount, date, amounts[n - 1], dates[n - 1]) {
            None => before,
            Some(c) => match before {
                None => Some((n - 1, c)),
                Some(b) => if confidence_rank(c) > confidence_rank(b.1) {
                    Some((n - 1, c))
                } else {
                    before
                },
            },
        }
    }
}

pub open spec fn all_readable(existing: Seq<ExistingTransaction>) -> bool {
    forall|k: int| 0 <= k < existing.len() ==> readable_decimal(#[trigger] existing[k].amount@)
}

pub open spec fn stored_amounts(existing: Seq<ExistingTransaction>) -> Seq<Decimal> {
    existing.map_values(|e: ExistingTransaction| read_decimal(e.amount@))
}

pub open spec fn stored_dates(existing: Seq<ExistingTransaction>) -> Seq<Timestamp> {
    existing.map_values(|e: ExistingTransaction| e.date)
}

/// The best match of line `t` among the stored transactions.
pub open spec fn best_existing_match(
    t: ParsedTransaction,
    existing: Seq<ExistingTransaction>,
) -> Option<(int, ConfidenceLevel)> {
    best_match(
        t.amount,
        t.date,
        stored_amounts(existing),
        stored_dates(existing),
        existing.len() as int,
    )
}

/// `a` and `b` agree on everything but the duplicate flag and match.
pub open spec fn same_line_data(a: ParsedTransaction, b: ParsedTransaction) -> bool {
    &&& a.temp_id == b.temp_id
    &&& a.title == b.title
    &&& a.amount == b.amount
    &&& a.date == b.date
    &&& a.notes == b.notes
    &&& a.original_currency == b.original_currency
    &&& a.original_amount == b.original_amount
    &&& a.is_valid == b.is_valid
    &&& a.validation_errors == b.validation_errors
}

/// `after` is line `before` once checked against `existing`: flagged with
/// its best match when that match is MEDIUM or better, else unchanged.
pub open spec fn checked_line(
    before: ParsedTransaction,
    existing: Seq<ExistingTransaction>,
    after: ParsedTransaction,
) -> bool {
    &&& same_line_data(before, after)
    &&& match best_existing_match(before, existing) {
        Some(b) if flags_duplicate(b.1) => {
            &&& after.is_potential_duplicate
            &&& after.duplicate_match matches Some(m) && {
                &&& m.transaction_id == existing[b.0].id
                &&& m.confidence == b.1
                &&& m.matched_on@ == matched_fields(b.1)
                &&& m.matched_date == existing[b.0].date
            }
        },
        _ => {
            &&& after.is_potential_duplicate == before.is_potential_duplicate
            &&& after.duplicate_match == before.duplicate_match
        },
    }
}

/// What `best_match` returns is the first candidate of the highest
/// confidence: it matches, no candidate matches with a higher confidence,
/// and none before it with the same one; and there is none exactly when no
/// stored transaction matches.
pub proof fn lemma_best_match_is_first_strongest(
    amount: Decimal,
    date: Timestamp,
    amounts: Seq<Decimal>,
    dates: Seq<Timestamp>,
    n: int,
)
    requires
        0 <= n <= amounts.len(),
        n <= dates.len(),
    ensures
        match best_match(amount, date, amounts, dates, n) {
            Some(b) => {
                &&& 0 <= b.0 < n
                &&& match_confidence(amount, date, amounts[b.0], dates[b.0]) == Some(b.1)
                &&& forall|k: int|
                    #![trigger match_confidence(amount, date, amounts[k], dates[k])]
                    0 <= k < n ==> match match_confidence(amount, date, amounts[k], dates[k]) {
                        Some(c) => confidence_rank(c) <= confidence_rank(b.1) && (k < b.0
                            ==> confidence_rank(c) < confidence_rank(b.1)),
                        None => true,
                    }
            },
            None => forall|k: int|
                #![trigger match_confidence(amount, date, amounts[k], dates[k])]
                0 <= k < n ==> match_confidence(amount, date, amounts[k], dates[k]) is None,
        },
    decreases n,
{
    if n > 0 {
        lemma_best_match_is_first_strongest(amount, date, amounts, dates, n - 1);
    }
}

/// The fields reported at confidence `c`.
fn matched_fields_of(c: ConfidenceLevel) -> (res: Vec<MatchedField>)
    ensures
        res@ == matched_fields(c),
{
    let mut v: Vec<MatchedField> = Vec::new();
    match c {
        ConfidenceLevel::High => {
            v.push(MatchedField::Date);
            v.push(MatchedField::Time);
            v.push(MatchedField::Amount);
        },
        ConfidenceLevel::Medium => {
            v.push(MatchedField::Date);
            v.push(MatchedField::Amount);
        },
        ConfidenceLevel::Low => {
            v.push(MatchedField::Amount);
        },
    }
    v
}

/// Whether a candidate of confidence `candidate` replaces the current best
/// of confidence `current`: only a strictly higher confidence does.
fn improves(current: ConfidenceLevel, candidate: ConfidenceLevel) -> (res: bool)
    ensures
        res == (confidence_rank(candidate) > confidence_rank(current)),
{
    match (current, candidate) {
        (ConfidenceLevel::Low, ConfidenceLevel::Medium)
        | (ConfidenceLevel::Low, ConfidenceLevel::High)
        | (ConfidenceLevel::Medium, ConfidenceLevel::High) => true,
        _ => false,
    }
}

/// The confidence of one comparison (`match_confidence`).
pub fn compare_with_existing(
    amount: &Decimal,
    date: &Timestamp,
    other_amount: &Decimal,
    other_date: &Timestamp,
) -> (res: Option<ConfidenceLevel>)
    ensures
        res == match_confidence(*amount, *date, *other_amount, *other_date),
{
    if !amount.same_value_as(other_amount) {
        return None;
    }
    let d = date.day();
    let od = other_date.day();
    if d == od {
        if date.second_of_day() == other_date.second_of_day() && date.nanos == other_date.nanos {
            Some(ConfidenceLevel::High)
        } else {
            Some(ConfidenceLevel::Medium)
        }
    } else if (d < od && od - d == 1) || (od < d && d - od == 1) {
        Some(ConfidenceLevel::Low)
    } else {
        None
    }
}

/// Reads every stored amount, failing with `ApiError::Internal` at the
/// first one that cannot be read.
fn read_stored_amounts(existing: &Vec<ExistingTransaction>) -> (res: Result<Vec<Decimal>, ApiError>)
    ensures
        match res {
            Ok(v) => all_readable(existing@) && v@ == stored_amounts(existing@),
            Err(e) => !all_readable(existing@) && e == ApiError::Internal,
        },
{
    let mut v: Vec<Decimal> = Vec::new();
    let mut k: usize = 0;
    while k < existing.len()
        invariant
            k <= existing.len(),
            v.len() == k,
            forall|j: int| 0 <= j < k ==> readable_decimal(#[trigger] existing@[j].amount@),
            forall|j: int| 0 <= j < k ==> #[trigger] v@[j] == read_decimal(existing@[j].amount@),
        decreases existing.len() - k,
    {
        match Decimal::parse(existing[k].amount.as_str()) {
            Some(d) => {
                v.push(d);
            },
            None => {
                assert(!readable_decimal(existing@[k as int].amount@));
                return Err(ApiError::Internal);
            },
        }
        k = k + 1;
    }
    assert(v@ == stored_amounts(existing@));
    Ok(v)
}

/// The best match of a line among the stored transactions, given their
/// amounts already read.
fn find_best_match(
    amount: &Decimal,
    date: &Timestamp,
    amounts: &Vec<Decimal>,
    existing: &Vec<ExistingTransaction>,
) -> (res: Option<(usize, ConfidenceLevel)>)
    requires
        amounts@ == stored_amounts(existing@),
    ensures
        match res {
            Some(b) => best_match(
                *amount,
                *date,
                stored_amounts(existing@),
                stored_dates(existing@),
                existing@.len() as int,
            ) == Some((b.0 as int, b.1)),
            None => best_match(
                *amount,
                *date,
                stored_amounts(existing@),
                stored_dates(existing@),
                existing@.len() as int,
            ) is None,
        },
{
    let ghost amts = stored_amounts(existing@);
    let ghost dts = stored_dates(existing@);
    let mut best: Option<(usize, ConfidenceLevel)> = None;
    let mut k: usize = 0;
    while k < existing.len()
        invariant
            k <= existing.len(),
            amounts@ == amts,
            amts == stored_amounts(existing@),
            dts == stored_dates(existing@),
            match best {
                Some(b) => best_match(*amount, *date, amts, dts, k as int) == Some((b.0 as int, b.1)),
                None => best_match(*amount, *date, amts, dts, k as int) is None,
            },
        decreases existing.len() - k,
    {
        let c = compare_with_existing(amount, date, &amounts[k], &existing[k].date);
        assert(dts[k as int] == existing@[k as int].date);
        match c {
            Some(level) => {
                match best {
                    None => {
                        best = Some((k, level));
                    },
                    Some(b) => {
                        if improves(b.1, level) {
                            best = Some((k, level));
                        }
                    },
                }
            },
            None => {},
        }
        k = k + 1;
    }
    best
}

/// Flags the lines of `transactions` that duplicate a stored transaction of
/// `existing` (the account's transactions from the day before the first
/// line to the day after the last). Nothing is compared when there is no
/// line; otherwise a stored amount that cannot be read fails the whole
/// check with `ApiError::Internal`, before any line is touched.
pub fn check_duplicates(
    transactions: &mut Vec<ParsedTransaction>,
    existing: &Vec<ExistingTransaction>,
) -> (res: Result<(), ApiError>)
    ensures
        res is Err <==> (old(transactions)@.len() > 0 && !all_readable(existing@)),
        res is Err ==> res == Err::<(), ApiError>(ApiError::Internal) && final(transactions)@
            == old(transactions)@,
        res is Ok ==> final(transactions)@.len() == old(transactions)@.len() && forall|i: int|
            0 <= i < old(transactions)@.len() ==> checked_line(
                #[trigger] old(transactions)@[i],
                existing@,
                final(transactions)@[i],
            ),
{
    if transactions.len() == 0 {
        return Ok(());
    }
    let amounts = match read_stored_amounts(existing) {
        Ok(v) => v,
        Err(e) => {
            return Err(e);
        },
    };
    let ghost before = transactions@;
    let mut i: usize = 0;
    while i < transactions.len()
        invariant
            i <= transactions@.len(),
            transactions@.len() == before.len(),
            amounts@ == stored_amounts(existing@),
            forall|j: int| 0 <= j < i ==> checked_line(#[trigger] before[j], existing@, transactions@[j]),
            forall|j: int| i <= j < before.len() ==> #[trigger] transactions@[j] == before[j],
        decreases before.len() - i,
    {
        let best = find_best_match(&transactions[i].amount, &transactions[i].date, &amounts, existing);
        proof {
            lemma_best_match_is_first_strongest(
                before[i as int].amount,
                before[i as int].date,
                stored_amounts(existing@),
                stored_dates(existing@),
                existing@.len() as int,
            );
        }
        match best {
            Some(b) => {
                if b.1.is_duplicate() {
                    let matched_on = matched_fields_of(b.1);
                    let m = DuplicateMatch {
                        transaction_id: existing[b.0].id,
                        confidence: b.1,
                        matched_on: matched_on,
                        matched_date: existing[b.0].date,
                    };
                    transactions[i].is_potential_duplicate = true;
                    transactions[i].duplicate_match = Some(m);
                }
            },
            None => {},
        }
        i = i + 1;
    }
    Ok(())
}

/// The days to search for stored transactions: from the day before the
/// earliest line to the day after the latest, or `None` without lines.
pub fn duplicate_search_days(transactions: &Vec<ParsedTransaction>) -> (res: Option<(i64, i64)>)
    ensures
        match res {
            None => transactions@.len() == 0,
            Some(w) => transactions@.len() > 0 && (exists|i: int|
                0 <= i < transactions@.len() && w.0 == day_of(#[trigger] transactions@[i].date)
                    - 1) && (exists|i: int|
                0 <= i < transactions@.len() && w.1 == day_of(#[trigger] transactions@[i].date)
                    + 1) && forall|i: int|
                0 <= i < transactions@.len() ==> w.0 + 1 <= day_of(#[trigger] transactions@[i].date)
                    <= w.1 - 1,
        },
{
    if transactions.len() == 0 {
        return None;
    }
    let mut lo = transactions[0].date.day();
    let mut hi = lo;
    let mut i: usize = 1;
    while i < transactions.len()
        invariant
            1 <= i <= transactions@.len(),
            exists|j: int| 0 <= j < i && lo == day_of(#[trigger] transactions@[j].date),
            exists|j: int| 0 <= j < i && hi == day_of(#[trigger] transactions@[j].date),
            forall|j: int| 0 <= j < i ==> lo <= day_of(#[trigger] transactions@[j].date) <= hi,
        decreases transactions@.len() - i,
    {
        let d = transactions[i].date.day();
        if d < lo {
            lo = d;
        }
        if d > hi {
            hi = d;
        }
        i = i + 1;
    }
    proof {
        assert(lo >= i64::MIN / 86400);
        assert(hi <= i64::MAX / 86400);
    }
    Some((lo - 1, hi + 1))
}

/// The number of lines in `s` that satisfy `p`.
pub open spec fn count_lines(s: Seq<ParsedTransaction>, p: spec_fn(ParsedTransaction) -> bool) -> nat
    decreases s.len(),
{
    if s.len() == 0 {
        0
    } else {
        count_lines(s.drop_last(), p) + if p(s.last()) {
            1nat
        } else {
            0nat
        }
    }
}

pub open spec fn is_income(t: ParsedTransaction) -> bool {
    sign_of(t.amount) > 0
}

pub open spec fn is_expense(t: ParsedTransaction) -> bool {
    sign_of(t.amount) < 0
}

pub open spec fn is_zero_amount(t: ParsedTransaction) -> bool {
    sign_of(t.amount) == 0
}

pub open spec fn is_flagged(t: ParsedTransaction) -> bool {
    t.is_potential_duplicate
}

pub open spec fn is_invalid(t: ParsedTransaction) -> bool {
    !t.is_valid
}

/// The summary of a parsed statement.
pub open spec fn summary_of(s: Seq<ParsedTransaction>) -> ImportSummary {
    ImportSummary {
        total: s.len() as usize,
        income: count_lines(s, |t: ParsedTransaction| is_income(t)) as usize,
        expenses: count_lines(s, |t: ParsedTransaction| is_expense(t)) as usize,
        duplicates: count_lines(s, |t: ParsedTransaction| is_flagged(t)) as usize,
        invalid: count_lines(s, |t: ParsedTransaction| is_invalid(t)) as usize,
    }
}

proof fn lemma_count_bounded(s: Seq<ParsedTransaction>, p: spec_fn(ParsedTransaction) -> bool)
    ensures
        count_lines(s, p) <= s.len(),
    decreases s.len(),
{
    if s.len() > 0 {
        lemma_count_bounded(s.drop_last(), p);
    }
}

/// Every line is income, an expense or of zero amount, and only one of
/// them: the three counts add up to the number of lines.
pub proof fn lemma_income_expense_zero_partition(s: Seq<ParsedTransaction>)
    ensures
        count_lines(s, |t: ParsedTransaction| is_income(t)) + count_lines(
            s,
            |t: ParsedTransaction| is_expense(t),
        ) + count_lines(s, |t: ParsedTransaction| is_zero_amount(t)) == s.len(),
    decreases s.len(),
{
    if s.len() > 0 {
        lemma_income_expense_zero_partition(s.drop_last());
    }
}

/// Counts over a run of `n` first lines grow by one line at a time.
fn count_step(
    count: usize,
    hit: bool,
    s: Ghost<Seq<ParsedTransaction>>,
    p: Ghost<spec_fn(ParsedTransaction) -> bool>,
    n: Ghost<int>,
) -> (res: usize)
    requires
        0 <= n@ < s@.len(),
        count == count_lines(s@.take(n@), p@),
        hit == p@(s@[n@]),
        s@.len() <= usize::MAX,
    ensures
        res == count_lines(s@.take(n@ + 1), p@),
{
    proof {
        assert(s@.take(n@ + 1).drop_last() == s@.take(n@));
        lemma_count_bounded(s@.take(n@), p@);
    }
    if hit {
        count + 1
    } else {
        count
    }
}

/// Counts the lines of a parsed statement: all of them, income (amount
/// above zero), expenses (below zero), flagged duplicates and invalid ones.
pub fn calculate_summary(transactions: &[ParsedTransaction]) -> (res: ImportSummary)
    ensures
        res == summary_of(transactions@),
{
    let ghost s = transactions@;
    let mut income: usize = 0;
    let mut expenses: usize = 0;
    let mut duplicates: usize = 0;
    let mut invalid: usize = 0;
    let mut i: usize = 0;
    while i < transactions.len()
        invariant
            s == transactions@,
            i <= s.len(),
            income == count_lines(s.take(i as int), |t: ParsedTransaction| is_income(t)),
            expenses == count_lines(s.take(i as int), |t: ParsedTransaction| is_expense(t)),
            duplicates == count_lines(s.take(i as int), |t: ParsedTransaction| is_flagged(t)),
            invalid == count_lines(s.take(i as int), |t: ParsedTransaction| is_invalid(t)),
        decreases s.len() - i,
    {
        let t = &transactions[i];
        let sign = t.amount.signum();
        income = count_step(income, sign > 0, Ghost(s), Ghost(|t: ParsedTransaction| is_income(t)), Ghost(i as int));
        expenses = count_step(expenses, sign < 0, Ghost(s), Ghost(|t: ParsedTransaction| is_expense(t)), Ghost(i as int));
        duplicates = count_step(duplicates, t.is_potential_duplicate, Ghost(s), Ghost(|t: ParsedTransaction| is_flagged(t)), Ghost(i as int));
        invalid = count_step(invalid, !t.is_valid, Ghost(s), Ghost(|t: ParsedTransaction| is_invalid(t)), Ghost(i as int));
        i = i + 1;
    }
    assert(s.take(s.len() as int) == s);
    ImportSummary { total: transactions.len(), income, expenses, duplicates, invalid }
}

} // verus!
