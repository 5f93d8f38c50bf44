//! Analytics over the user's money: net worth, the daily spending trend and
//! the spending per category.
use vstd::prelude::*;
use crate::decimal::{abs_spec, aligned, common_scale, decimal_text, decimal_to_string, sum_fits, sum_in_range, total, total_of, Decimal};
use crate::models::Timestamp;
use crate::text::{compare_text, lemma_lex_transitive, lemma_lex_trichotomy, lex_lt, owned};
use crate::time::{format_utc, formatted_utc, opt_string_view};

verus! {

/// An account of the user with its balance.
#[derive(Debug, Clone)]
pub struct AccountBalanceInput {
    pub account_id: u128,
    pub account_name: String,
    pub balance: Decimal,
}

/// An account's balance as the net worth lists it.
#[derive(Debug, Clone)]
pub struct AccountBalance {
    pub account_id: u128,
    pub account_name: String,
    pub balance: String,
}

/// The user's net worth: the sum of all account balances.
#[derive(Debug, Clone)]
pub struct NetWorth {
    pub total: String,
    pub accounts: Vec<AccountBalance>,
}

pub open spec fn balances(accounts: Seq<AccountBalanceInput>) -> Seq<Decimal> {
    accounts.map_values(|a: AccountBalanceInput| a.balance)
}

/// The net worth over the user's accounts: each balance as text, in order,
/// and their sum.
pub fn calculate_net_worth(accounts: &Vec<AccountBalanceInput>) -> (res: NetWorth)
    requires
        sum_in_range(balances(accounts@)),
    ensures
        res.total@ == decimal_text(total_of(balances(accounts@)).mantissa as int, total_of(balances(accounts@)).scale as int),
        res.accounts@.len() == accounts@.len(),
        forall|k: int|
            0 <= k < accounts@.len() ==> {
                let a = #[trigger] res.accounts@[k];
                let b = accounts@[k];
                &&& a.account_id == b.account_id
                &&& a.account_name@ == b.account_name@
                &&& a.balance@ == decimal_text(b.balance.mantissa as int, b.balance.scale as int)
            },
{
    let mut listed: Vec<AccountBalance> = Vec::new();
    let mut amounts: Vec<Decimal> = Vec::new();
    let mut k: usize = 0;
    while k < accounts.len()
        invariant
            k <= accounts@.len(),
            listed@.len() == k,
            amounts@ == balances(accounts@).take(k as int),
            forall|j: int|
                0 <= j < k ==> {
                    let a = #[trigger] listed@[j];
                    let b = accounts@[j];
                    &&& a.account_id == b.account_id
                    &&& a.account_name@ == b.account_name@
                    &&& a.balance@ == decimal_text(b.balance.mantissa as int, b.balance.scale as int)
                },
        decreases accounts@.len() - k,
    {
        let a = &accounts[k];
        listed.push(
            AccountBalance {
                account_id: a.account_id,
                account_name: a.account_name.clone(),
                balance: decimal_to_string(&a.balance),
            },
        );
        amounts.push(a.balance);
        assert(amounts@ =~= balances(accounts@).take(k + 1));
        k = k + 1;
    }
    assert(amounts@ =~= balances(accounts@));
    let t = total(&amounts);
    NetWorth { total: decimal_to_string(&t), accounts: listed }
}

/// A transaction as the spending trend reads it.
#[derive(Debug, Clone, Copy)]
pub struct TrendTransaction {
    pub date: Timestamp,
    pub amount: Decimal,
}

/// One day of the spending trend.
#[derive(Debug, Clone)]
pub struct SpendingTrendPoint {
    /// The day, as `%Y-%m-%d`
    pub date: String,
    /// The day's spending
    pub amount: String,
}

/// Only expenses (negative amounts) count as spending.
pub open spec fn is_expense(t: TrendTransaction) -> bool {
    t.amount.mantissa < 0
}

/// The day of an instant as `%Y-%m-%d`.
pub open spec fn day_text(t: Timestamp) -> Option<Seq<char>> {
    formatted_utc(t, "%Y-%m-%d"@)
}

/// `a + b` at the larger scale (as `BigDecimal` adds).
pub open spec fn decimal_plus(a: Decimal, b: Decimal) -> Decimal {
    let s = common_scale(a, b);
    Decimal { mantissa: (aligned(a, s) + aligned(b, s)) as i128, scale: s as i64 }
}

/// The spending of the day `key` over the first `n` transactions: the
/// first expense of that day's absolute amount, to which each later one's
/// is added; `None` before the first.
pub open spec fn day_total(ts: Seq<TrendTransaction>, key: Seq<char>, n: int) -> Option<Decimal>
    decreases n,
{
    if n <= 0 {
        None
    } else {
        let prev = day_total(ts, key, n - 1);
        let t = ts[n - 1];
        if is_expense(t) && day_text(t.date) == Some(key) {
            match prev {
                None => Some(abs_spec(t.amount)),
                Some(p) => Some(decimal_plus(p, abs_spec(t.amount))),
            }
        } else {
            prev
        }
    }
}

/// Whether the trend of the first `n` transactions can be computed: each
/// expense has a calendar day, and each day's running total keeps an
/// `i128` mantissa.
pub open spec fn trend_fits(ts: Seq<TrendTransaction>, n: int) -> bool
    decreases n,
{
    if n <= 0 {
        true
    } else {
        &&& trend_fits(ts, n - 1)
        &&& step_fits(ts, n - 1)
    }
}

/// Whether the expense at `k` (if it is one) can be added to its day.
pub open spec fn step_fits(ts: Seq<TrendTransaction>, k: int) -> bool {
    let t = ts[k];
    is_expense(t) ==> (t.amount.mantissa != i128::MIN && match day_text(t.date) {
        None => false,
        Some(key) => match day_total(ts, key, k) {
            None => true,
            Some(p) => sum_fits(p, abs_spec(t.amount)),
        },
    })
}

proof fn lemma_trend_fits_prefix(ts: Seq<TrendTransaction>, j: int, n: int)
    requires
        0 <= j <= n,
        trend_fits(ts, n),
    ensures
        trend_fits(ts, j),
    decreases n,
{
    if j < n {
        lemma_trend_fits_prefix(ts, j, n - 1);
    }
}

proof fn lemma_trend_stops(ts: Seq<TrendTransaction>, n: int)
    requires
        0 <= n < ts.len(),
        !step_fits(ts, n),
    ensures
        !trend_fits(ts, ts.len() as int),
{
    if trend_fits(ts, ts.len() as int) {
        lemma_trend_fits_prefix(ts, n + 1, ts.len() as int);
    }
}

/// The days are listed in increasing order of their text.
pub open spec fn days_sorted(v: Seq<(String, Decimal)>) -> bool {
    forall|i: int, j: int| 0 <= i < j < v.len() ==> lex_lt((#[trigger] v[i]).0@, (#[trigger] v[j]).0@)
}

/// The daily spending of the transactions, one point per day with
/// spending, in increasing order of the day. `None` where an expense has no
/// calendar day or a day's total leaves the `i128` range.
pub fn get_spending_trend(ts: &Vec<TrendTransaction>) -> (res: Option<Vec<SpendingTrendPoint>>)
    ensures
        res is Some <==> trend_fits(ts@, ts@.len() as int),
        match res {
            Some(v) => {
                &&& forall|i: int, j: int| 0 <= i < j < v@.len() ==> lex_lt((#[trigger] v@[i]).date@, (#[trigger] v@[j]).date@)
                &&& forall|i: int|
                    0 <= i < v@.len() ==> (day_total(ts@, (#[trigger] v@[i]).date@, ts@.len() as int) matches Some(d)
                        && v@[i].amount@ == decimal_text(d.mantissa as int, d.scale as int))
                &&& forall|key: Seq<char>|
                    #[trigger] day_total(ts@, key, ts@.len() as int) is Some ==> exists|i: int|
                        0 <= i < v@.len() && (#[trigger] v@[i]).date@ == key
            },
            None => true,
        },
{
    let mut e: Vec<(String, Decimal)> = Vec::new();
    let mut n: usize = 0;
    while n < ts.len()
        invariant
            n <= ts@.len(),
            trend_fits(ts@, n as int),
            days_sorted(e@),
            forall|i: int| 0 <= i < e@.len() ==> day_total(ts@, (#[trigger] e@[i]).0@, n as int) == Some(e@[i].1),
            forall|key: Seq<char>|
                #[trigger] day_total(ts@, key, n as int) is Some ==> exists|i: int| 0 <= i < e@.len() && (#[trigger] e@[i]).0@ == key,
        decreases ts@.len() - n,
    {
        let t = ts[n];
        if t.amount.mantissa < 0 {
            if t.amount.mantissa == i128::MIN {
                proof {
                    lemma_trend_stops(ts@, n as int);
                }
                return None;
            }
            let key = match format_utc(t.date, "%Y-%m-%d") {
                Some(k) => k,
                None => {
                    proof {
                        reveal_strlit("%Y-%m-%d");
                        lemma_trend_stops(ts@, n as int);
                    }
                    return None;
                },
            };
            proof {
                reveal_strlit("%Y-%m-%d");
            }
            let spent = t.amount.abs();
            let ghost kv = key@;
            // find the day among the listed ones
            let mut j: usize = 0;
            let mut found = false;
            while j < e.len()
                invariant_except_break
                    j <= e@.len(),
                    !found,
                    forall|i: int| 0 <= i < j ==> lex_lt((#[trigger] e@[i]).0@, kv),
                invariant
                    key@ == kv,
                    j <= e@.len(),
                ensures
                    found ==> j < e@.len() && e@[j as int].0@ == kv,
                    !found ==> forall|i: int| 0 <= i < j ==> lex_lt((#[trigger] e@[i]).0@, kv),
                    !found ==> (j == e@.len() || lex_lt(kv, e@[j as int].0@)),
                decreases e@.len() - j,
            {
                let c = compare_text(key.as_str(), e[j].0.as_str());
                if c == 0 {
                    found = true;
                    break;
                }
                if c < 0 {
                    break;
                }
                j = j + 1;
            }
            let ghost before = e@;
            proof {
                // no other listed day is this one
                assert forall|i: int| 0 <= i < before.len() && i != j implies (#[trigger] before[i]).0@ != kv by {
                    if found {
                        if i < j {
                            lemma_lex_trichotomy(before[i].0@, before[j as int].0@);
                        } else {
                            lemma_lex_trichotomy(before[j as int].0@, before[i].0@);
                        }
                    } else if i < j {
                        lemma_lex_trichotomy(before[i].0@, kv);
                    } else {
                        lemma_lex_transitive(kv, before[j as int].0@, before[i].0@);
                        lemma_lex_trichotomy(kv, before[i].0@);
                    }
                }
            }
            if found {
                let prev = e[j].1;
                let sum = match crate::decimal::add(&prev, &spent) {
                    Some(s) => s,
                    None => {
                        proof {
                            assert(!step_fits(ts@, n as int));
                            lemma_trend_stops(ts@, n as int);
                        }
                        return None;
                    },
                };
                e.set(j, (key, sum));
                proof {
                    assert(trend_fits(ts@, n + 1));
                    assert forall|i: int| 0 <= i < e@.len() implies day_total(ts@, (#[trigger] e@[i]).0@, n + 1) == Some(e@[i].1) by {
                        if i != j {
                            assert(e@[i] == before[i]);
                        }
                    }
                    assert forall|i: int, i2: int| 0 <= i < i2 < e@.len() implies lex_lt((#[trigger] e@[i]).0@, (#[trigger] e@[i2]).0@) by {
                        assert(before[i].0@ == e@[i].0@);
                        assert(before[i2].0@ == e@[i2].0@);
                    }
                    assert forall|k2: Seq<char>| #[trigger] day_total(ts@, k2, n + 1) is Some implies exists|i: int|
                        0 <= i < e@.len() && (#[trigger] e@[i]).0@ == k2 by {
                        if k2 == kv {
                            assert(e@[j as int].0@ == k2);
                        } else {
                            assert(day_total(ts@, k2, n as int) is Some);
                            let i = choose|i: int| 0 <= i < before.len() && (#[trigger] before[i]).0@ == k2;
                            assert(e@[i].0@ == k2);
                        }
                    }
                }
            } else {
                proof {
                    if day_total(ts@, kv, n as int) is Some {
                        let i = choose|i: int| 0 <= i < before.len() && (#[trigger] before[i]).0@ == kv;
                        if i == j {
                            lemma_lex_trichotomy(kv, before[i].0@);
                        }
                        assert(before[i].0@ != kv);
                    }
                    assert(day_total(ts@, kv, n as int) is None);
                }
                e.insert(j, (key, spent));
                proof {
                    assert(trend_fits(ts@, n + 1));
                    assert forall|i: int| 0 <= i < e@.len() implies day_total(ts@, (#[trigger] e@[i]).0@, n + 1) == Some(e@[i].1) by {
                        if i < j {
                            assert(e@[i] == before[i]);
                        } else if i > j {
                            assert(e@[i] == before[i - 1]);
                        }
                    }
                    assert forall|i: int, i2: int| 0 <= i < i2 < e@.len() implies lex_lt((#[trigger] e@[i]).0@, (#[trigger] e@[i2]).0@) by {
                        if i < j && i2 < j {
                            assert(e@[i] == before[i] && e@[i2] == before[i2]);
                        } else if i < j && i2 == j {
                            assert(e@[i] == before[i]);
                        } else if i < j {
                            assert(e@[i] == before[i] && e@[i2] == before[i2 - 1]);
                            lemma_lex_transitive(before[i].0@, kv, before[j as int].0@);
                            if i2 - 1 > j {
                                lemma_lex_transitive(before[i].0@, before[j as int].0@, before[i2 - 1].0@);
                            }
                        } else if i == j {
                            assert(e@[i2] == before[i2 - 1]);
                            if i2 - 1 > j {
                                lemma_lex_transitive(kv, before[j as int].0@, before[i2 - 1].0@);
                            }
                        } else {
                            assert(e@[i] == before[i - 1] && e@[i2] == before[i2 - 1]);
                        }
                    }
                    assert forall|k2: Seq<char>| #[trigger] day_total(ts@, k2, n + 1) is Some implies exists|i: int|
                        0 <= i < e@.len() && (#[trigger] e@[i]).0@ == k2 by {
                        if k2 == kv {
                            assert(e@[j as int].0@ == k2);
                        } else {
                            assert(day_total(ts@, k2, n as int) is Some);
                            let i = choose|i: int| 0 <= i < before.len() && (#[trigger] before[i]).0@ == k2;
                            if i < j {
                                assert(e@[i].0@ == k2);
                            } else {
                                assert(e@[i + 1].0@ == k2);
                            }
                        }
                    }
                }
            }
        } else {
            proof {
                assert(trend_fits(ts@, n + 1));
                assert forall|k2: Seq<char>| #[trigger] day_total(ts@, k2, n + 1) is Some implies exists|i: int|
                    0 <= i < e@.len() && (#[trigger] e@[i]).0@ == k2 by {
                    assert(day_total(ts@, k2, n as int) is Some);
                }
            }
        }
        n = n + 1;
    }
    let mut points: Vec<SpendingTrendPoint> = Vec::new();
    let mut i: usize = 0;
    while i < e.len()
        invariant
            i <= e@.len(),
            points@.len() == i,
            forall|k: int|
                0 <= k < i ==> (#[trigger] points@[k]).date@ == e@[k].0@ && points@[k].amount@ == decimal_text(
                    e@[k].1.mantissa as int,
                    e@[k].1.scale as int,
                ),
        decreases e@.len() - i,
    {
        points.push(SpendingTrendPoint { date: e[i].0.clone(), amount: decimal_to_string(&e[i].1) });
        i = i + 1;
    }
    proof {
        assert forall|i1: int, i2: int| 0 <= i1 < i2 < points@.len() implies lex_lt((#[trigger] points@[i1]).date@, (#[trigger] points@[i2]).date@) by {
            assert(e@[i1].0@ == points@[i1].date@);
            assert(e@[i2].0@ == points@[i2].date@);
        }
        assert forall|key: Seq<char>| #[trigger] day_total(ts@, key, ts@.len() as int) is Some implies exists|i: int|
            0 <= i < points@.len() && (#[trigger] points@[i]).date@ == key by {
            let i = choose|i: int| 0 <= i < e@.len() && (#[trigger] e@[i]).0@ == key;
            assert(points@[i].date@ == key);
        }
    }
    Some(points)
}

/// A transaction as the category breakdown reads it.
#[derive(Debug, Clone, Copy)]
pub struct CategorySpend {
    pub category_id: Option<u128>,
    pub amount: Decimal,
}

/// The spending of one category.
#[derive(Debug, Clone, Copy)]
pub struct CategoryTotal {
    pub category_id: Option<u128>,
    pub total: Decimal,
}

pub open spec fn is_spending(t: CategorySpend) -> bool {
    t.amount.mantissa < 0
}

/// The spending of category `cat` over the first `n` transactions: the
/// first expense's absolute amount, to which each later one's is added.
pub open spec fn category_total(ts: Seq<CategorySpend>, cat: Option<u128>, n: int) -> Option<Decimal>
    decreases n,
{
    if n <= 0 {
        None
    } else {
        let prev = category_total(ts, cat, n - 1);
        let t = ts[n - 1];
        if is_spending(t) && t.category_id == cat {
            match prev {
                None => Some(abs_spec(t.amount)),
                Some(p) => Some(decimal_plus(p, abs_spec(t.amount))),
            }
        } else {
            prev
        }
    }
}

/// All spending over the first `n` transactions, added up from zero.
pub open spec fn spending_total(ts: Seq<CategorySpend>, n: int) -> Decimal
    decreases n,
{
    if n <= 0 {
        Decimal { mantissa: 0, scale: 0 }
    } else if is_spending(ts[n - 1]) {
        decimal_plus(spending_total(ts, n - 1), abs_spec(ts[n - 1].amount))
    } else {
        spending_total(ts, n - 1)
    }
}

/// Whether the expense at `k` (if it is one) can be added to its category
/// and to the total with `i128` mantissas.
pub open spec fn spend_step_fits(ts: Seq<CategorySpend>, k: int) -> bool {
    let t = ts[k];
    is_spending(t) ==> {
        &&& t.amount.mantissa != i128::MIN
        &&& sum_fits(spending_total(ts, k), abs_spec(t.amount))
        &&& match category_total(ts, t.category_id, k) {
            None => true,
            Some(p) => sum_fits(p, abs_spec(t.amount)),
        }
    }
}

pub open spec fn breakdown_fits(ts: Seq<CategorySpend>, n: int) -> bool
    decreases n,
{
    if n <= 0 {
        true
    } else {
        breakdown_fits(ts, n - 1) && spend_step_fits(ts, n - 1)
    }
}

proof fn lemma_breakdown_stops(ts: Seq<CategorySpend>, n: int)
    requires
        0 <= n < ts.len(),
        !spend_step_fits(ts, n),
    ensures
        !breakdown_fits(ts, ts.len() as int),
{
    lemma_breakdown_prefix(ts, n + 1, ts.len() as int);
}

proof fn lemma_breakdown_prefix(ts: Seq<CategorySpend>, j: int, n: int)
    requires
        0 <= j <= n,
    ensures
        breakdown_fits(ts, n) ==> breakdown_fits(ts, j),
    decreases n,
{
    if j < n {
        lemma_breakdown_prefix(ts, j, n - 1);
    }
}

/// The groups hold distinct categories, each with its exact total over the
/// first `n` transactions, and every category with spending is among them.
pub open spec fn groups_exact(ts: Seq<CategorySpend>, g: Seq<CategoryTotal>, n: int) -> bool {
    &&& forall|i: int, j: int| 0 <= i < j < g.len() ==> (#[trigger] g[i]).category_id != (#[trigger] g[j]).category_id
    &&& forall|i: int| 0 <= i < g.len() ==> category_total(ts, (#[trigger] g[i]).category_id, n) == Some(g[i].total)
    &&& forall|c: Option<u128>| #[trigger] category_total(ts, c, n) is Some ==> exists|i: int|
        0 <= i < g.len() && (#[trigger] g[i]).category_id == c
}

fn same_category(a: Option<u128>, b: Option<u128>) -> (res: bool)
    ensures
        res == (a == b),
{
    match (a, b) {
        (Some(x), Some(y)) => x == y,
        (None, None) => true,
        _ => false,
    }
}

/// The spending per category, in order of first appearance, and the total
/// spending; `None` where an amount leaves the `i128` range.
fn group_categories(ts: &Vec<CategorySpend>) -> (res: Option<(Vec<CategoryTotal>, Decimal)>)
    ensures
        res is Some <==> breakdown_fits(ts@, ts@.len() as int),
        res matches Some(r) ==> groups_exact(ts@, r.0@, ts@.len() as int) && r.1 == spending_total(
            ts@,
            ts@.len() as int,
        ),
{
    let mut g: Vec<CategoryTotal> = Vec::new();
    let mut all = Decimal { mantissa: 0, scale: 0 };
    let mut n: usize = 0;
    while n < ts.len()
        invariant
            n <= ts@.len(),
            breakdown_fits(ts@, n as int),
            groups_exact(ts@, g@, n as int),
            all == spending_total(ts@, n as int),
        decreases ts@.len() - n,
    {
        let t = ts[n];
        if t.amount.mantissa < 0 {
            if t.amount.mantissa == i128::MIN {
                proof {
                    lemma_breakdown_stops(ts@, n as int);
                }
                return None;
            }
            let spent = t.amount.abs();
            all = match crate::decimal::add(&all, &spent) {
                Some(a) => a,
                None => {
                    proof {
                        lemma_breakdown_stops(ts@, n as int);
                    }
                    return None;
                },
            };
            let mut j: usize = 0;
            while j < g.len()
                invariant
                    j <= g@.len(),
                    forall|i: int| 0 <= i < j ==> (#[trigger] g@[i]).category_id != t.category_id,
                ensures
                    j <= g@.len(),
                    forall|i: int| 0 <= i < j ==> (#[trigger] g@[i]).category_id != t.category_id,
                    j < g@.len() ==> g@[j as int].category_id == t.category_id,
                decreases g@.len() - j,
            {
                if same_category(g[j].category_id, t.category_id) {
                    break;
                }
                j = j + 1;
            }
            let ghost before = g@;
            if j < g.len() {
                let sum = match crate::decimal::add(&g[j].total, &spent) {
                    Some(x) => x,
                    None => {
                        proof {
                            lemma_breakdown_stops(ts@, n as int);
                        }
                        return None;
                    },
                };
                g.set(j, CategoryTotal { category_id: t.category_id, total: sum });
                proof {
                    assert forall|i: int| 0 <= i < g@.len() implies category_total(ts@, (#[trigger] g@[i]).category_id, n + 1)
                        == Some(g@[i].total) by {
                        if i != j {
                            assert(g@[i] == before[i]);
                        }
                    }
                    assert forall|i: int, i2: int| 0 <= i < i2 < g@.len() implies (#[trigger] g@[i]).category_id != (
                    #[trigger] g@[i2]).category_id by {
                        assert(g@[i].category_id == before[i].category_id);
                        assert(g@[i2].category_id == before[i2].category_id);
                    }
                    assert forall|c: Option<u128>| #[trigger] category_total(ts@, c, n + 1) is Some implies exists|i: int|
                        0 <= i < g@.len() && (#[trigger] g@[i]).category_id == c by {
                        if c != t.category_id {
                            let i = choose|i: int| 0 <= i < before.len() && (#[trigger] before[i]).category_id == c;
                            assert(g@[i].category_id == c);
                        } else {
                            assert(g@[j as int].category_id == c);
                        }
                    }
                }
            } else {
                proof {
                    if category_total(ts@, t.category_id, n as int) is Some {
                        let i = choose|i: int| 0 <= i < before.len() && (#[trigger] before[i]).category_id == t.category_id;
                        assert(false);
                    }
                }
                g.push(CategoryTotal { category_id: t.category_id, total: spent });
                proof {
                    assert forall|i: int| 0 <= i < g@.len() implies category_total(ts@, (#[trigger] g@[i]).category_id, n + 1)
                        == Some(g@[i].total) by {
                        if i < before.len() {
                            assert(g@[i] == before[i]);
                        }
                    }
                    assert forall|c: Option<u128>| #[trigger] category_total(ts@, c, n + 1) is Some implies exists|i: int|
                        0 <= i < g@.len() && (#[trigger] g@[i]).category_id == c by {
                        if c != t.category_id {
                            assert(category_total(ts@, c, n as int) is Some);
                            let i = choose|i: int| 0 <= i < before.len() && (#[trigger] before[i]).category_id == c;
                            assert(g@[i] == before[i]);
                        } else {
                            assert(g@[before.len() as int].category_id == c);
                        }
                    }
                }
            }
        } else {
            proof {
                assert forall|c: Option<u128>| #[trigger] category_total(ts@, c, n + 1) is Some implies exists|i: int|
                    0 <= i < g@.len() && (#[trigger] g@[i]).category_id == c by {
                    assert(category_total(ts@, c, n as int) is Some);
                }
            }
        }
        n = n + 1;
    }
    Some((g, all))
}

/// The groups at the positions `order` have non-increasing totals.
pub open spec fn desc_by(gs: Seq<CategoryTotal>, order: Seq<usize>) -> bool {
    forall|i: int, j: int|
        0 <= i < j < order.len() ==> crate::decimal::value_order(
            gs[(#[trigger] order[j]) as int].total,
            gs[(#[trigger] order[i]) as int].total,
        ) <= 0
}

/// Inserting a group before the first smaller one keeps the order.
proof fn lemma_insert_desc(gs: Seq<CategoryTotal>, s: Seq<usize>, p: int, k: int)
    requires
        desc_by(gs, s),
        0 <= p <= s.len(),
        0 <= k < gs.len(),
        k < usize::MAX,
        forall|i: int| 0 <= i < p ==> crate::decimal::value_order(gs[k].total, gs[(#[trigger] s[i]) as int].total) <= 0,
        p < s.len() ==> crate::decimal::value_order(gs[k].total, gs[s[p] as int].total) > 0,
    ensures
        desc_by(gs, s.insert(p, k as usize)),
{
    let t = s.insert(p, k as usize);
    assert forall|i: int, j: int| 0 <= i < j < t.len() implies crate::decimal::value_order(
        gs[(#[trigger] t[j]) as int].total,
        gs[(#[trigger] t[i]) as int].total,
    ) <= 0 by {
        let x = gs[k].total;
        if j < p {
            assert(t[i] == s[i] && t[j] == s[j]);
        } else if j == p {
            assert(t[i] == s[i]);
            crate::decimal::lemma_value_order_transitive(x, gs[s[i] as int].total, x);
        } else if i < p {
            assert(t[i] == s[i] && t[j] == s[j - 1]);
            let a = gs[s[i] as int].total;
            let b = gs[s[j - 1] as int].total;
            let c = gs[s[p] as int].total;
            crate::decimal::lemma_value_order_transitive(x, c, x);
            crate::decimal::lemma_value_order_transitive(c, x, a);
            if j - 1 > p {
                assert(crate::decimal::value_order(b, c) <= 0);
                crate::decimal::lemma_value_order_transitive(b, c, a);
            }
        } else if i == p {
            assert(t[i] == k && t[j] == s[j - 1]);
            let b = gs[s[j - 1] as int].total;
            let c = gs[s[p] as int].total;
            crate::decimal::lemma_value_order_transitive(c, x, c);
            if j - 1 > p {
                assert(crate::decimal::value_order(b, c) <= 0);
                crate::decimal::lemma_value_order_transitive(b, c, x);
            } else {
                crate::decimal::lemma_value_order_transitive(b, x, b);
            }
        } else {
            assert(t[i] == s[i - 1] && t[j] == s[j - 1]);
        }
    }
}

/// Inserting the next index into a permutation of the indices below it
/// gives a permutation of the indices up to it.
proof fn lemma_insert_index(s: Seq<usize>, p: int, k: int)
    requires
        s.len() == k,
        0 <= p <= k,
        k < usize::MAX,
        forall|i: int| 0 <= i < k ==> #[trigger] s[i] < k,
        forall|i: int, j: int| 0 <= i < j < k ==> #[trigger] s[i] != #[trigger] s[j],
        forall|x: int| 0 <= x < k ==> #[trigger] holds_index(s, x),
    ensures
        ({
            let t = s.insert(p, k as usize);
            &&& forall|i: int| 0 <= i < k + 1 ==> #[trigger] t[i] < k + 1
            &&& forall|i: int, j: int| 0 <= i < j < k + 1 ==> #[trigger] t[i] != #[trigger] t[j]
            &&& forall|x: int| 0 <= x < k + 1 ==> #[trigger] holds_index(t, x)
        }),
{
    let t = s.insert(p, k as usize);
    assert forall|x: int| 0 <= x < k + 1 implies #[trigger] holds_index(t, x) by {
        if x == k {
            assert(t[p] == x);
        } else {
            assert(holds_index(s, x));
            let i = choose|i: int| 0 <= i < s.len() && #[trigger] s[i] == x;
            if i < p {
                assert(t[i] == x);
            } else {
                assert(t[i + 1] == x);
            }
        }
    }
    assert forall|i: int, j: int| 0 <= i < j < k + 1 implies #[trigger] t[i] != #[trigger] t[j] by {
        if i < p && j < p {
            assert(t[i] == s[i] && t[j] == s[j]);
        } else if i < p && j == p {
            assert(t[i] == s[i]);
        } else if i < p {
            assert(t[i] == s[i] && t[j] == s[j - 1]);
        } else if i == p {
            assert(t[j] == s[j - 1]);
        } else {
            assert(t[i] == s[i - 1] && t[j] == s[j - 1]);
        }
    }
    assert forall|i: int| 0 <= i < k + 1 implies #[trigger] t[i] < k + 1 by {
        if i < p {
            assert(t[i] == s[i]);
        } else if i > p {
            assert(t[i] == s[i - 1]);
        }
    }
}

/// `x` is among the entries of `s`.
pub open spec fn holds_index(s: Seq<usize>, x: int) -> bool {
    exists|i: int| 0 <= i < s.len() && s[i] == x
}

/// The spending per category, the largest first (categories with equal
/// spending in no particular order), and the total spending. `None` where
/// an amount leaves the `i128` range.
pub fn category_breakdown(ts: &Vec<CategorySpend>) -> (res: Option<(Vec<CategoryTotal>, Decimal)>)
    ensures
        res is Some <==> breakdown_fits(ts@, ts@.len() as int),
        res matches Some(r) ==> {
            &&& groups_exact(ts@, r.0@, ts@.len() as int)
            &&& r.1 == spending_total(ts@, ts@.len() as int)
            &&& forall|i: int, j: int|
                0 <= i < j < r.0@.len() ==> crate::decimal::value_order((#[trigger] r.0@[j]).total, (#[trigger] r.0@[i]).total) <= 0
        },
{
    let (g, all) = match group_categories(ts) {
        Some(r) => r,
        None => {
            return None;
        },
    };
    let ghost gs = g@;
    let ghost len = ts@.len() as int;
    // insertion of each group, by index, before the first smaller one
    let mut order: Vec<usize> = Vec::new();
    let mut k: usize = 0;
    while k < g.len()
        invariant
            gs == g@,
            k <= gs.len(),
            order@.len() == k,
            forall|i: int| 0 <= i < k ==> #[trigger] order@[i] < k,
            forall|i: int, j: int| 0 <= i < j < k ==> #[trigger] order@[i] != #[trigger] order@[j],
            forall|x: int| 0 <= x < k ==> #[trigger] holds_index(order@, x),
            desc_by(gs, order@),
        decreases gs.len() - k,
    {
        let mut p: usize = 0;
        while p < order.len()
            invariant
                gs == g@,
                k < gs.len(),
                p <= order@.len(),
                order@.len() == k,
                forall|i: int| 0 <= i < k ==> #[trigger] order@[i] < k,
                forall|i: int| 0 <= i < p ==> crate::decimal::value_order(
                    gs[k as int].total,
                    gs[(#[trigger] order@[i]) as int].total,
                ) <= 0,
            ensures
                p <= order@.len(),
                forall|i: int| 0 <= i < p ==> crate::decimal::value_order(
                    gs[k as int].total,
                    gs[(#[trigger] order@[i]) as int].total,
                ) <= 0,
                p < order@.len() ==> crate::decimal::value_order(gs[k as int].total, gs[order@[p as int] as int].total) > 0,
            decreases order@.len() - p,
        {
            if g[k].total.order(&g[order[p]].total) > 0 {
                break;
            }
            p = p + 1;
        }
        let ghost before = order@;
        order.insert(p, k);
        proof {
            lemma_insert_desc(gs, before, p as int, k as int);
            assert(order@ == before.insert(p as int, k));
            lemma_insert_index(before, p as int, k as int);
        }
        k = k + 1;
    }
    let mut out: Vec<CategoryTotal> = Vec::new();
    let mut i: usize = 0;
    while i < order.len()
        invariant
            gs == g@,
            order@.len() == gs.len(),
            i <= order@.len(),
            forall|x: int| 0 <= x < order@.len() ==> #[trigger] order@[x] < gs.len(),
            out@.len() == i,
            forall|j: int| 0 <= j < i ==> #[trigger] out@[j] == gs[order@[j] as int],
        decreases order@.len() - i,
    {
        out.push(g[order[i]]);
        i = i + 1;
    }
    proof {
        let n = ts@.len() as int;
        assert forall|i1: int, j1: int| 0 <= i1 < j1 < out@.len() implies (#[trigger] out@[i1]).category_id != (
        #[trigger] out@[j1]).category_id by {
            assert(out@[i1] == gs[order@[i1] as int]);
            assert(out@[j1] == gs[order@[j1] as int]);
            assert(order@[i1] != order@[j1]);
            if order@[i1] < order@[j1] {
                assert(gs[order@[i1] as int].category_id != gs[order@[j1] as int].category_id);
            } else {
                assert(gs[order@[j1] as int].category_id != gs[order@[i1] as int].category_id);
            }
        }
        assert forall|i1: int| 0 <= i1 < out@.len() implies category_total(ts@, (#[trigger] out@[i1]).category_id, n) == Some(
            out@[i1].total,
        ) by {
            assert(out@[i1] == gs[order@[i1] as int]);
        }
        assert forall|c: Option<u128>| #[trigger] category_total(ts@, c, n) is Some implies exists|i1: int|
            0 <= i1 < out@.len() && (#[trigger] out@[i1]).category_id == c by {
            let x = choose|x: int| 0 <= x < gs.len() && (#[trigger] gs[x]).category_id == c;
            assert(holds_index(order@, x));
            let i1 = choose|i1: int| 0 <= i1 < order@.len() && #[trigger] order@[i1] == x;
            assert(out@[i1] == gs[x]);
        }
        assert forall|i1: int, j1: int| 0 <= i1 < j1 < out@.len() implies crate::decimal::value_order(
            (#[trigger] out@[j1]).total,
            (#[trigger] out@[i1]).total,
        ) <= 0 by {
            assert(out@[i1] == gs[order@[i1] as int]);
            assert(out@[j1] == gs[order@[j1] as int]);
            assert(crate::decimal::value_order(gs[order@[j1] as int].total, gs[order@[i1] as int].total) <= 0);
        }
    }
    Some((out, all))
}

} // verus!
