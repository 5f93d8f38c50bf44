use vstd::prelude::*;
use crate::text::str_eq;
use crate::time::{date_le, day_number_of, days_after, days_before, days_in_month, first_of_month_plus, valid_date, weekday_from_monday, CalendarDate};

verus! {
/// Recurrence of a budget range (database enum `budget_period`).
#[derive(Debug, Clone, Copy, PartialEq, Eq, Hash, Structural)]
pub enum BudgetPeriod {
    Daily,
    Weekly,
    Monthly,
    Quarterly,
    Yearly,
}
/// The database label of each variant.
pub open spec fn budget_period_label(t: BudgetPeriod) -> Seq<char> {
    match t {
        BudgetPeriod::Daily => "DAILY"@,
        BudgetPeriod::Weekly => "WEEKLY"@,
        BudgetPeriod::Monthly => "MONTHLY"@,
        BudgetPeriod::Quarterly => "QUARTERLY"@,
        BudgetPeriod::Yearly => "YEARLY"@,
    }
}
/// The variant with the given database label, if any.
pub open spec fn budget_period_from_label(s: Seq<char>) -> Option<BudgetPeriod> {
    if s == "DAILY"@ {
        Some(BudgetPeriod::Daily)
    } else if s == "WEEKLY"@ {
        Some(BudgetPeriod::Weekly)
    } else if s == "MONTHLY"@ {
        Some(BudgetPeriod::Monthly)
    } else if s == "QUARTERLY"@ {
        Some(BudgetPeriod::Quarterly)
    } else if s == "YEARLY"@ {
        Some(BudgetPeriod::Yearly)
    } else {
        None
    }
}
impl BudgetPeriod {
    /// The label this variant is stored under in the database.
    pub fn to_sql_label(&self) -> (res: &'static str)
        ensures
            res@ == budget_period_label(*self),
    {
        match self {
            BudgetPeriod::Daily => "DAILY",
            BudgetPeriod::Weekly => "WEEKLY",
            BudgetPeriod::Monthly => "MONTHLY",
            BudgetPeriod::Quarterly => "QUARTERLY",
            BudgetPeriod::Yearly => "YEARLY",
        }
    }

    /// The variant stored under a database label; any other label is refused.
    pub fn from_sql_label(label: &str) -> (res: Result<BudgetPeriod, String>)
        ensures
            match budget_period_from_label(label@) {
                Some(t) => res == Ok::<BudgetPeriod, String>(t),
                None => res matches Err(m) && m@ == "Unrecognized enum variant for BudgetPeriod"@,
            },
    {
        if str_eq(label, "DAILY") {
            Ok(BudgetPeriod::Daily)
        } else if str_eq(label, "WEEKLY") {
            Ok(BudgetPeriod::Weekly)
        } else if str_eq(label, "MONTHLY") {
            Ok(BudgetPeriod::Monthly)
        } else if str_eq(label, "QUARTERLY") {
            Ok(BudgetPeriod::Quarterly)
        } else if str_eq(label, "YEARLY") {
            Ok(BudgetPeriod::Yearly)
        } else {
            Err(crate::text::owned("Unrecognized enum variant for BudgetPeriod"))
        }
    }
}

/// Reading back the label stored for a variant gives that variant.
pub proof fn lemma_budget_period_label_roundtrip(t: BudgetPeriod)
    ensures
        budget_period_from_label(budget_period_label(t)) == Some(t),
{
    reveal_strlit("DAILY");
    reveal_strlit("WEEKLY");
    reveal_strlit("MONTHLY");
    reveal_strlit("QUARTERLY");
    reveal_strlit("YEARLY");
    assert("WEEKLY"@.len() != "DAILY"@.len());
    assert("MONTHLY"@.len() != "DAILY"@.len());
    assert("MONTHLY"@.len() != "WEEKLY"@.len());
    assert("QUARTERLY"@.len() != "DAILY"@.len());
    assert("QUARTERLY"@.len() != "WEEKLY"@.len());
    assert("QUARTERLY"@.len() != "MONTHLY"@.len());
    assert("YEARLY"@.len() != "DAILY"@.len());
    assert("YEARLY"@[0] != "WEEKLY"@[0]);
    assert("YEARLY"@.len() != "MONTHLY"@.len());
    assert("YEARLY"@.len() != "QUARTERLY"@.len());
}

/// The first month of the quarter of month `m`.
pub open spec fn quarter_start_month(m: int) -> int {
    ((m - 1) / 3) * 3 + 1
}

/// The calendar-aligned window of a period that contains `today`, where
/// it is given by its days (all but the weekly one): a day, the month, the
/// quarter or the year.
pub open spec fn window_of(p: BudgetPeriod, today: CalendarDate) -> (CalendarDate, CalendarDate) {
    let y = today.year;
    let m = today.month as int;
    match p {
        BudgetPeriod::Monthly => (
            CalendarDate { year: y, month: m as u32, day: 1 },
            CalendarDate { year: y, month: m as u32, day: days_in_month(y as int, m) as u32 },
        ),
        BudgetPeriod::Quarterly => (
            CalendarDate { year: y, month: quarter_start_month(m) as u32, day: 1 },
            CalendarDate {
                year: y,
                month: (quarter_start_month(m) + 2) as u32,
                day: days_in_month(y as int, quarter_start_month(m) + 2) as u32,
            },
        ),
        BudgetPeriod::Yearly => (
            CalendarDate { year: y, month: 1, day: 1 },
            CalendarDate { year: y, month: 12, day: 31 },
        ),
        _ => (today, today),
    }
}

/// The Monday that starts the week of the day numbered `n`.
pub open spec fn week_start_number(n: int) -> int {
    n - (n + 6) % 7
}

impl BudgetPeriod {
    /// The calendar-aligned window of the period that contains `today`:
    /// the day itself; Monday to Sunday of its week; the 1st to the last
    /// day of its month; the first to the last day of its quarter; January
    /// 1 to December 31 of its year.
    pub fn current_window(&self, today: CalendarDate) -> (res: (CalendarDate, CalendarDate))
        requires
            valid_date(today),
            -262143 < today.year < 262142,
        ensures
            valid_date(res.0),
            valid_date(res.1),
            *self != BudgetPeriod::Weekly ==> res == window_of(*self, today),
            *self == BudgetPeriod::Weekly ==> {
                &&& day_number_of(res.0) == week_start_number(day_number_of(today))
                &&& day_number_of(res.1) == day_number_of(res.0) + 6
                &&& (day_number_of(res.0) + 6) % 7 == 0
            },
            *self != BudgetPeriod::Weekly ==> date_le(res.0, today) && date_le(today, res.1),
            *self == BudgetPeriod::Weekly ==> day_number_of(res.0) <= day_number_of(today) <= day_number_of(res.1),
    {
        match self {
            BudgetPeriod::Daily => (today, today),
            BudgetPeriod::Weekly => {
                let days_from_monday = weekday_from_monday(today);
                let start = days_before(today, days_from_monday);
                let end = days_after(start, 6);
                (start, end)
            },
            BudgetPeriod::Monthly => {
                let start = CalendarDate { year: today.year, month: today.month, day: 1 };
                let next = first_of_month_plus(today.year, today.month, 1);
                let end = days_before(next, 1);
                (start, end)
            },
            BudgetPeriod::Quarterly => {
                let quarter_start = ((today.month - 1) / 3) * 3 + 1;
                let start = CalendarDate { year: today.year, month: quarter_start, day: 1 };
                let next = first_of_month_plus(today.year, quarter_start, 3);
                let end = days_before(next, 1);
                (start, end)
            },
            BudgetPeriod::Yearly => {
                let start = CalendarDate { year: today.year, month: 1, day: 1 };
                let end = CalendarDate { year: today.year, month: 12, day: 31 };
                (start, end)
            },
        }
    }
}

} // verus!
