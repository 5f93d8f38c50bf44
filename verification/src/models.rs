//! Data shapes shared between the services: timestamps, parsed statement
//! lines and the results of an import check.
use vstd::prelude::*;
use crate::decimal::Decimal;
use crate::types::ConfidenceLevel;

verus! {

/// A UTC instant (`chrono::DateTime<Utc>`): whole seconds since the Unix
/// epoch and the nanoseconds within that second.
#[derive(Debug, Clone, Copy, PartialEq, Eq, Structural)]
pub struct Timestamp {
    pub seconds: i64,
    pub nanos: u32,
}

pub const SECONDS_PER_DAY: i64 = 86400;

/// The answer to a step that the application performs (a lookup, a call to
/// a provider): not come back yet, or come back with this.
#[derive(Debug, Clone, PartialEq, Eq)]
pub enum Reply<T> {
    Pending,
    Got(T),
}

/// The UTC calendar day of an instant, counted in days from 1970-01-01
/// (`DateTime::date_naive`).
pub open spec fn day_of(t: Timestamp) -> int {
    t.seconds as int / 86400
}

/// The seconds elapsed since UTC midnight (`DateTime::time`, whole seconds).
pub open spec fn second_of_day(t: Timestamp) -> int {
    t.seconds as int % 86400
}

/// Instants in time order (`DateTime`'s `<`).
pub open spec fn is_before(a: Timestamp, b: Timestamp) -> bool {
    a.seconds < b.seconds || (a.seconds == b.seconds && a.nanos < b.nanos)
}

impl Timestamp {
    /// The day number of `date_naive()`.
    pub fn day(&self) -> (res: i64)
        ensures
            res == day_of(*self),
    {
        let d = self.seconds / SECONDS_PER_DAY;
        let r = self.seconds % SECONDS_PER_DAY;
        if r < 0 {
            d - 1
        } else {
            d
        }
    }

    /// The seconds since midnight of `time()`.
    pub fn second_of_day(&self) -> (res: i64)
        ensures
            res == second_of_day(*self),
    {
        let r = self.seconds % SECONDS_PER_DAY;
        if r < 0 {
            r + SECONDS_PER_DAY
        } else {
            r
        }
    }

    /// `self < other`.
    pub fn is_before(&self, other: &Timestamp) -> (res: bool)
        ensures
            res == is_before(*self, *other),
    {
        self.seconds < other.seconds || (self.seconds == other.seconds && self.nanos < other.nanos)
    }
}

/// Which fields of a statement line matched an existing transaction.
#[derive(Debug, Clone, Copy, PartialEq, Eq, Structural)]
pub enum MatchedField {
    Date,
    Time,
    Amount,
}

impl MatchedField {
    /// The name reported for the field ("date", "time" or "amount").
    pub fn name(&self) -> (res: &'static str)
        ensures
            res@ == matched_field_name(*self),
    {
        match self {
            MatchedField::Date => "date",
            MatchedField::Time => "time",
            MatchedField::Amount => "amount",
        }
    }
}

pub open spec fn matched_field_name(f: MatchedField) -> Seq<char> {
    match f {
        MatchedField::Date => "date"@,
        MatchedField::Time => "time"@,
        MatchedField::Amount => "amount"@,
    }
}

/// An existing transaction that a parsed line may duplicate.
#[derive(Debug, Clone, PartialEq, Eq)]
pub struct DuplicateMatch {
    pub transaction_id: u128,
    pub confidence: ConfidenceLevel,
    pub matched_on: Vec<MatchedField>,
    pub matched_date: Timestamp,
}

/// One transaction read from a bank statement, awaiting import.
#[derive(Debug, Clone)]
pub struct ParsedTransaction {
    pub temp_id: String,
    pub title: String,
    pub amount: Decimal,
    pub date: Timestamp,
    pub notes: Option<String>,
    pub original_currency: Option<String>,
    pub original_amount: Option<Decimal>,
    pub is_valid: bool,
    pub validation_errors: Option<Vec<ValidationError>>,
    pub is_potential_duplicate: bool,
    pub duplicate_match: Option<DuplicateMatch>,
}

/// A transaction already stored for the account, as the duplicate check reads it.
#[derive(Debug, Clone)]
pub struct ExistingTransaction {
    pub id: u128,
    /// The stored amount, as text.
    pub amount: String,
    pub date: Timestamp,
}

/// Counts over a parsed statement.
#[derive(Debug, Clone, Copy, PartialEq, Eq, Structural)]
pub struct ImportSummary {
    pub total: usize,
    pub income: usize,
    pub expenses: usize,
    pub duplicates: usize,
    pub invalid: usize,
}

/// Limits applied when importing a statement.
#[derive(Debug, Clone, Copy, PartialEq, Eq, Structural)]
pub struct ImportConfig {
    pub max_transactions: usize,
}

/// Why a statement could not be parsed.
#[derive(Debug, Clone, PartialEq, Eq)]
pub enum ParserError {
    TooManyTransactions { found: usize, max: usize },
    CsvError { line: usize, error: String },
    MissingField { field: &'static str, line: usize },
    InvalidTimestamp { value: String, line: usize },
    InvalidAmount { value: String, line: usize },
    EmptyFile,
    UnsupportedFileType { extension: String },
}

/// A `ParserError` with its texts as character sequences.
pub enum ParserErrorView {
    TooManyTransactions { found: usize, max: usize },
    CsvError { line: usize, error: Seq<char> },
    MissingField { field: Seq<char>, line: usize },
    InvalidTimestamp { value: Seq<char>, line: usize },
    InvalidAmount { value: Seq<char>, line: usize },
    EmptyFile,
    UnsupportedFileType { extension: Seq<char> },
}

pub open spec fn parser_error_view(e: ParserError) -> ParserErrorView {
    match e {
        ParserError::TooManyTransactions { found, max } => ParserErrorView::TooManyTransactions { found, max },
        ParserError::CsvError { line, error } => ParserErrorView::CsvError { line, error: error@ },
        ParserError::MissingField { field, line } => ParserErrorView::MissingField { field: field@, line },
        ParserError::InvalidTimestamp { value, line } => ParserErrorView::InvalidTimestamp { value: value@, line },
        ParserError::InvalidAmount { value, line } => ParserErrorView::InvalidAmount { value: value@, line },
        ParserError::EmptyFile => ParserErrorView::EmptyFile,
        ParserError::UnsupportedFileType { extension } => ParserErrorView::UnsupportedFileType { extension: extension@ },
    }
}

/// A problem with one parsed transaction.
#[derive(Debug, Clone, Copy, PartialEq, Eq, Structural)]
pub enum ValidationError {
    EmptyTitle,
    TitleTooLong,
    ZeroAmount,
    FutureDate,
}

/// A stored transaction, as the services read it.
#[derive(Debug, Clone)]
pub struct Transaction {
    pub id: u128,
    pub user_id: u128,
    pub account_id: u128,
    pub category_id: Option<u128>,
    pub title: String,
    pub amount: Decimal,
    pub date: Timestamp,
    pub notes: Option<String>,
    pub is_deleted: bool,
    pub deleted_at: Option<Timestamp>,
}

} // verus!
