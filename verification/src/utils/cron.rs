//! Cron schedules of background jobs, written in five fields
//! (minute hour day-of-month month day-of-week) and evaluated by the `cron`
//! crate, which reads seven (second first, year last).
use vstd::prelude::*;
use crate::models::Timestamp;
use crate::services::split_provider::superjson::trunc_div;
use crate::text::{i64_text, int_text, owned, push_str, str_eq, trim, trimmed};
use crate::time::now;

verus! {

#[verifier::external_type_specification]
#[verifier::external_body]
pub struct ExSchedule(cron::Schedule);

/// The error text `cron::Schedule::from_str` reports for `text`, or `None`
/// where it accepts the text.
pub uninterp spec fn schedule_error(text: Seq<char>) -> Option<Seq<char>>;

/// The first `count` occurrences, strictly after `after`, of the schedule
/// `cron` reads from `text` (none where `after` lies outside chrono's
/// range).
pub uninterp spec fn schedule_runs(text: Seq<char>, after: Timestamp, count: nat) -> Seq<Timestamp>;

/// `cron::Schedule::from_str(text)`, its error as text (`Display`).
#[verifier::external_body]
fn schedule_from_str(text: &str) -> (res: Result<cron::Schedule, String>)
    ensures
        match res {
            Ok(_) => schedule_error(text@) is None,
            Err(m) => schedule_error(text@) == Some(m@),
        },
{
    <cron::Schedule as std::str::FromStr>::from_str(text).map_err(|e| e.to_string())
}

/// A schedule together with the seven-field text it was read from.
pub struct CronSchedule {
    text: String,
    schedule: cron::Schedule,
}

impl CronSchedule {
    /// The seven-field text of the schedule.
    pub closed spec fn source(&self) -> Seq<char> {
        self.text@
    }
}

/// `schedule.after(&after).take(count)`: the first `count` occurrences of a
/// schedule after `after`. The instants are named by `schedule_runs` over
/// the text the schedule was read from (a `CronSchedule` is only made by
/// `parse_cron`).
#[verifier::external_body]
fn runs_after(s: &CronSchedule, after: Timestamp, count: usize) -> (res: Vec<Timestamp>)
    ensures
        res@ == schedule_runs(s.source(), after, count as nat),
{
    match chrono::DateTime::from_timestamp(after.seconds, after.nanos) {
        Some(start) => s.schedule.after(&start).take(count).map(|d| Timestamp {
            seconds: d.timestamp(),
            nanos: d.timestamp_subsec_nanos(),
        }).collect(),
        None => Vec::new(),
    }
}

pub open spec fn seven_field(cron_expr: Seq<char>) -> Seq<char> {
    "0 "@ + cron_expr + " *"@
}

/// The seven-field form of a five-field expression: a zero second in front
/// and any year behind.
pub fn to_seven_field(cron_expr: &str) -> (res: String)
    ensures
        res@ == seven_field(cron_expr@),
{
    let mut s = owned("0 ");
    push_str(&mut s, cron_expr);
    push_str(&mut s, " *");
    s
}

/// The error for an expression `cron` refuses.
pub open spec fn invalid_cron_message(cron_expr: Seq<char>, error: Seq<char>) -> Seq<char> {
    "Invalid cron expression '"@ + cron_expr + "': "@ + error
}

/// Reads a five-field expression into a schedule.
pub fn parse_cron(cron_expr: &str) -> (res: Result<CronSchedule, String>)
    ensures
        match schedule_error(seven_field(cron_expr@)) {
            None => res matches Ok(s) && s.source() == seven_field(cron_expr@),
            Some(e) => res matches Err(m) && m@ == invalid_cron_message(cron_expr@, e),
        },
{
    let text = to_seven_field(cron_expr);
    match schedule_from_str(text.as_str()) {
        Ok(schedule) => Ok(CronSchedule { text, schedule }),
        Err(e) => {
            let mut m = owned("Invalid cron expression '");
            push_str(&mut m, cron_expr);
            push_str(&mut m, "': ");
            push_str(&mut m, e.as_str());
            Err(m)
        },
    }
}

/// Checks a five-field expression.
pub fn validate_cron(cron_expr: &str) -> (res: Result<(), String>)
    ensures
        match schedule_error(seven_field(cron_expr@)) {
            None => res is Ok,
            Some(e) => res matches Err(m) && m@ == invalid_cron_message(cron_expr@, e),
        },
{
    match parse_cron(cron_expr) {
        Ok(_) => Ok(()),
        Err(m) => Err(m),
    }
}

/// `res` is the next occurrence of a five-field expression after `after`:
/// the parse error, or the schedule's first run after `after`, or the
/// error that there is none.
pub open spec fn next_run_at(cron_expr: Seq<char>, after: Timestamp, res: Result<Timestamp, String>) -> bool {
    match schedule_error(seven_field(cron_expr)) {
        Some(e) => res matches Err(m) && m@ == invalid_cron_message(cron_expr, e),
        None => {
            let runs = schedule_runs(seven_field(cron_expr), after, 1);
            if runs.len() > 0 {
                res == Ok::<Timestamp, String>(runs[0])
            } else {
                res matches Err(m) && m@ == "No upcoming occurrence for cron expression '"@ + cron_expr + "'"@
            }
        },
    }
}

/// The next occurrence of a five-field expression after `after`.
pub fn compute_next_run_after(cron_expr: &str, after: Timestamp) -> (res: Result<Timestamp, String>)
    ensures
        next_run_at(cron_expr@, after, res),
{
    let schedule = match parse_cron(cron_expr) {
        Ok(s) => s,
        Err(m) => {
            return Err(m);
        },
    };
    let runs = runs_after(&schedule, after, 1);
    if runs.len() > 0 {
        Ok(runs[0])
    } else {
        let mut m = owned("No upcoming occurrence for cron expression '");
        push_str(&mut m, cron_expr);
        push_str(&mut m, "'");
        Err(m)
    }
}

/// The next occurrence of a five-field expression from now: what
/// `compute_next_run_after` gives at the instant the clock read (that
/// instant is not named).
pub fn compute_next_run(cron_expr: &str) -> (res: Result<Timestamp, String>)
    ensures
        schedule_error(seven_field(cron_expr@)) matches Some(e) ==> (res matches Err(m) && m@
            == invalid_cron_message(cron_expr@, e)),
        exists|t: Timestamp| #[trigger] next_run_at(cron_expr@, t, res),
{
    let t = now();
    let res = compute_next_run_after(cron_expr, t);
    assert(next_run_at(cron_expr@, t, res));
    res
}

/// The next `count` occurrences of a five-field expression after `after`.
pub fn compute_upcoming_runs_after(cron_expr: &str, after: Timestamp, count: usize) -> (res: Result<Vec<Timestamp>, String>)
    ensures
        match schedule_error(seven_field(cron_expr@)) {
            Some(e) => res matches Err(m) && m@ == invalid_cron_message(cron_expr@, e),
            None => res matches Ok(v) && v@ == schedule_runs(seven_field(cron_expr@), after, count as nat),
        },
{
    let schedule = match parse_cron(cron_expr) {
        Ok(s) => s,
        Err(m) => {
            return Err(m);
        },
    };
    Ok(runs_after(&schedule, after, count))
}

/// `res` is the next `count` occurrences of a five-field expression after
/// `after`, or its parse error.
pub open spec fn upcoming_runs_at(cron_expr: Seq<char>, after: Timestamp, count: nat, res: Result<Vec<Timestamp>, String>) -> bool {
    match schedule_error(seven_field(cron_expr)) {
        Some(e) => res matches Err(m) && m@ == invalid_cron_message(cron_expr, e),
        None => res matches Ok(v) && v@ == schedule_runs(seven_field(cron_expr), after, count),
    }
}

/// The next `count` occurrences of a five-field expression from now: what
/// `compute_upcoming_runs_after` gives at the instant the clock read.
pub fn compute_upcoming_runs(cron_expr: &str, count: usize) -> (res: Result<Vec<Timestamp>, String>)
    ensures
        schedule_error(seven_field(cron_expr@)) matches Some(e) ==> (res matches Err(m) && m@
            == invalid_cron_message(cron_expr@, e)),
        schedule_error(seven_field(cron_expr@)) is None ==> res is Ok,
        exists|t: Timestamp| #[trigger] upcoming_runs_at(cron_expr@, t, count as nat, res),
{
    let t = now();
    let res = compute_upcoming_runs_after(cron_expr, t, count);
    assert(upcoming_runs_at(cron_expr@, t, count as nat, res));
    res
}

/// The whole minutes from `a` to `b`, truncated toward zero
/// (`(b - a).num_minutes()`).
pub open spec fn minutes_between(a: Timestamp, b: Timestamp) -> int {
    let total = (b.seconds - a.seconds) * 1_000_000_000 + (b.nanos - a.nanos);
    trunc_div(trunc_div(total, 1_000_000_000), 60)
}

/// What `validate_min_frequency` answers for the upcoming occurrences
/// `runs` of `cron_expr`.
pub open spec fn frequency_verdict(cron_expr: Seq<char>, runs: Seq<Timestamp>) -> Result<(), Seq<char>> {
    if runs.len() < 2 {
        Err("Cannot determine frequency for cron expression '"@ + cron_expr + "'"@)
    } else if minutes_between(runs[0], runs[1]) < 60 {
        Err(
            "Schedule frequency too high: occurrences are "@ + int_text(minutes_between(runs[0], runs[1]))
                + " minutes apart (minimum 60)"@,
        )
    } else {
        Ok(())
    }
}

/// Checks that two consecutive occurrences `runs` are at least an hour
/// apart.
pub fn check_min_frequency(cron_expr: &str, runs: &Vec<Timestamp>) -> (res: Result<(), String>)
    ensures
        match frequency_verdict(cron_expr@, runs@) {
            Ok(_) => res is Ok,
            Err(m) => res matches Err(e) && e@ == m,
        },
{
    if runs.len() < 2 {
        let mut m = owned("Cannot determine frequency for cron expression '");
        push_str(&mut m, cron_expr);
        push_str(&mut m, "'");
        return Err(m);
    }
    let a = runs[0];
    let b = runs[1];
    let total: i128 = (b.seconds as i128 - a.seconds as i128) * 1_000_000_000i128 + (b.nanos as i128 - a.nanos as i128);
    let seconds: i128 = total / 1_000_000_000i128;
    let minutes: i128 = seconds / 60i128;
    assert(seconds as int == trunc_div(total as int, 1_000_000_000));
    assert(minutes as int == trunc_div(seconds as int, 60));
    if minutes < 60 {
        assert(-1_000_000_000_000_000_000i128 <= minutes) by (nonlinear_arith)
            requires
                minutes as int == trunc_div(seconds as int, 60),
                seconds as int == trunc_div(total as int, 1_000_000_000),
                total == (b.seconds - a.seconds) * 1_000_000_000 + (b.nanos - a.nanos),
                i64::MIN <= a.seconds <= i64::MAX,
                i64::MIN <= b.seconds <= i64::MAX,
                0 <= a.nanos <= u32::MAX,
                0 <= b.nanos <= u32::MAX,
        ;
        let mut m = owned("Schedule frequency too high: occurrences are ");
        push_str(&mut m, i64_text(minutes as i64).as_str());
        push_str(&mut m, " minutes apart (minimum 60)");
        return Err(m);
    }
    Ok(())
}

/// `res` is the frequency check of a five-field expression with its runs
/// after `after`: the parse error, or the verdict on its next two runs.
pub open spec fn min_frequency_at(cron_expr: Seq<char>, after: Timestamp, res: Result<(), String>) -> bool {
    match schedule_error(seven_field(cron_expr)) {
        Some(e) => res matches Err(m) && m@ == invalid_cron_message(cron_expr, e),
        None => match frequency_verdict(cron_expr, schedule_runs(seven_field(cron_expr), after, 2)) {
            Ok(_) => res is Ok,
            Err(m) => res matches Err(e) && e@ == m,
        },
    }
}

/// Checks that a five-field expression runs at most once an hour: its next
/// two occurrences from now are at least 60 minutes apart. The answer is
/// `min_frequency_at` at the instant the clock read (not named).
pub fn validate_min_frequency(cron_expr: &str) -> (res: Result<(), String>)
    ensures
        schedule_error(seven_field(cron_expr@)) matches Some(e) ==> (res matches Err(m) && m@
            == invalid_cron_message(cron_expr@, e)),
        exists|t: Timestamp| #[trigger] min_frequency_at(cron_expr@, t, res),
{
    let t = now();
    let runs = match compute_upcoming_runs_after(cron_expr, t, 2) {
        Ok(r) => r,
        Err(m) => {
            assert(min_frequency_at(cron_expr@, t, Err::<(), String>(m)));
            return Err(m);
        },
    };
    let res = check_min_frequency(cron_expr, &runs);
    assert(min_frequency_at(cron_expr@, t, res));
    res
}

/// The description of a preset, or the expression itself (trimmed).
pub open spec fn cron_description(cron_expr: Seq<char>) -> Seq<char> {
    let t = trimmed(cron_expr);
    if t == "0 * * * *"@ {
        "Every hour"@
    } else if t == "0 0 * * *"@ {
        "Daily at 00:00"@
    } else if t == "0 0 * * 1"@ {
        "Every Sunday at 00:00"@
    } else if t == "0 0 * * 2"@ {
        "Every Monday at 00:00"@
    } else if t == "0 0 1 * *"@ {
        "Monthly on the 1st at 00:00"@
    } else {
        t
    }
}

/// A readable description of common presets; other expressions are given
/// back trimmed.
pub fn describe_cron(cron_expr: &str) -> (res: String)
    ensures
        res@ == cron_description(cron_expr@),
{
    let t = trim(cron_expr);
    let s = t.as_str();
    if str_eq(s, "0 * * * *") {
        owned("Every hour")
    } else if str_eq(s, "0 0 * * *") {
        owned("Daily at 00:00")
    } else if str_eq(s, "0 0 * * 1") {
        owned("Every Sunday at 00:00")
    } else if str_eq(s, "0 0 * * 2") {
        owned("Every Monday at 00:00")
    } else if str_eq(s, "0 0 1 * *") {
        owned("Monthly on the 1st at 00:00")
    } else {
        t
    }
}

} // verus!
