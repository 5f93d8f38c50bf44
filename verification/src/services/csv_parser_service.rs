//! CSV statement parser.
//!
//! Reads bank statements in the format `id,time,merchant,type,amount,card`
//! (with a header line) into parsed transactions, and checks each parsed
//! transaction for obvious problems.
use vstd::prelude::*;
use crate::decimal::{abs_spec, parsed_decimal, sign_of, Decimal};
use crate::models::{
    is_before, parser_error_view, ImportConfig, ParsedTransaction, ParserError, ParserErrorView,
    Timestamp, ValidationError,
};
use crate::text::{
    ascii_lower_char, owned, push_str, str_eq, to_lowercase, trim, trim_start, trimmed, unicode_lowercase,
};
use crate::types::currency_code::currency_code_label;
use crate::types::CurrencyCode;
use crate::time::now;

verus! {

// ───────────────────────────── outside calls ─────────────────────────────

/// The records `csv::Reader` reads from `content` after its header line:
/// each one the list of its fields, or the text of the error the reader
/// reported for it.
pub uninterp spec fn csv_records(content: Seq<u8>) -> Seq<Result<Seq<Seq<char>>, Seq<char>>>;

/// The view of one record as `read_csv_records` returns it.
pub open spec fn record_view(r: Result<Vec<String>, String>) -> Result<Seq<Seq<char>>, Seq<char>> {
    match r {
        Ok(fields) => Ok(fields@.map_values(|f: String| f@)),
        Err(e) => Err(e@),
    }
}

/// Reads the records of a CSV document with `csv::Reader` (first line as
/// header). What the reader makes of the bytes (quoting, field counts, UTF-8)
/// is named by `csv_records`, not restated.
#[verifier::external_body]
fn read_csv_records(content: &[u8]) -> (res: Vec<Result<Vec<String>, String>>)
    ensures
        res@.map_values(|r: Result<Vec<String>, String>| record_view(r)) == csv_records(content@),
{
    let mut reader = csv::Reader::from_reader(content);
    reader.records().map(|r| match r {
        Ok(record) => Ok(record.iter().map(|f| f.to_string()).collect()),
        Err(e) => Err(e.to_string()),
    }).collect()
}

/// The instant `NaiveDateTime::parse_from_str(s, "%Y-%m-%d %H:%M:%S")` reads,
/// taken as UTC, as seconds since the epoch.
pub uninterp spec fn statement_timestamp(s: Seq<char>) -> Option<int>;

/// `NaiveDateTime::parse_from_str` with the statement's format, taken as UTC.
#[verifier::external_body]
fn parse_statement_time(s: &str) -> (res: Option<i64>)
    ensures
        match res {
            Some(t) => statement_timestamp(s@) == Some(t as int),
            None => statement_timestamp(s@) is None,
        },
{
    chrono::NaiveDateTime::parse_from_str(s, "%Y-%m-%d %H:%M:%S").ok().map(|n| n.and_utc().timestamp())
}

/// A fresh random identifier (`Uuid::new_v4().to_string()`); nothing is
/// promised of its value.
#[verifier::external_body]
fn new_temp_id() -> (res: String) {
    uuid::Uuid::new_v4().to_string()
}

// ───────────────────────────── amounts ─────────────────────────────

/// `s` without its leading copies of `c` (`str::trim_start_matches`).
pub open spec fn strip_leading(s: Seq<char>, c: char) -> Seq<char>
    decreases s.len(),
{
    if s.len() > 0 && s[0] == c {
        strip_leading(s.drop_first(), c)
    } else {
        s
    }
}

/// The currency a statement amount is written in, from its first
/// character: `€`, `£` or `$`, EUR when there is none.
pub open spec fn amount_currency(t: Seq<char>) -> CurrencyCode {
    if t.len() > 0 && t[0] == '€' {
        CurrencyCode::Eur
    } else if t.len() > 0 && t[0] == '£' {
        CurrencyCode::Gbp
    } else if t.len() > 0 && t[0] == '$' {
        CurrencyCode::Usd
    } else {
        CurrencyCode::Eur
    }
}

/// The number part of a statement amount: the symbol (all its leading
/// copies) removed and the rest trimmed.
pub open spec fn amount_number(t: Seq<char>) -> Seq<char> {
    if t.len() > 0 && (t[0] == '€' || t[0] == '£' || t[0] == '$') {
        trimmed(strip_leading(t, t[0]))
    } else {
        trimmed(t)
    }
}

/// Whether the value of a decimal literal can be held by `Decimal`.
pub open spec fn decimal_holds(p: Option<(int, int)>) -> bool {
    p matches Some(q) && i128::MIN < q.0 <= i128::MAX
}

/// What `parse_amount` returns for the amount text `s` on line `line`.
pub open spec fn parse_amount_spec(s: Seq<char>, line: usize) -> Result<(Decimal, CurrencyCode), ParserErrorView> {
    let t = trimmed(s);
    let p = parsed_decimal(amount_number(t));
    if decimal_holds(p) {
        let q = p->0;
        Ok((Decimal { mantissa: q.0 as i128, scale: q.1 as i64 }, amount_currency(t)))
    } else {
        Err(ParserErrorView::InvalidAmount { value: t, line })
    }
}

fn strip_leading_char(s: &str, c: char) -> (res: String)
    ensures
        res@ == strip_leading(s@, c),
{
    let n = s.unicode_len();
    let mut i: usize = 0;
    assert(s@.subrange(0, n as int) == s@);
    while i < n && s.get_char(i) == c
        invariant
            n == s@.len(),
            i <= n,
            strip_leading(s@, c) == strip_leading(s@.subrange(i as int, n as int), c),
        decreases n - i,
    {
        let ghost rest = s@.subrange(i as int, n as int);
        assert(rest.drop_first() == s@.subrange(i + 1, n as int));
        i = i + 1;
    }
    let ghost rest = s@.subrange(i as int, n as int);
    assert(rest.len() == 0 || rest[0] != c);
    owned(s.substring_char(i, n))
}

impl CSVStatementParser {
    /// Parse an amount string and extract its currency.
    ///
    /// Supported formats: €-108.12, £89.45, $100.00; without a currency
    /// symbol the amount is taken to be in EUR.
    pub fn parse_amount(&self, amount_str: &str, line: usize) -> (res: Result<(Decimal, CurrencyCode), ParserError>)
        ensures
            match parse_amount_spec(amount_str@, line) {
                Ok(v) => res == Ok::<(Decimal, CurrencyCode), ParserError>(v),
                Err(e) => res matches Err(r) && parser_error_view(r) == e,
            },
    {
        let t = trim(amount_str);
        let ts = t.as_str();
        let n = ts.unicode_len();
        let first = if n > 0 {
            ts.get_char(0)
        } else {
            ' '
        };
        let (currency, number) = if n > 0 && (first == '€' || first == '£' || first == '$') {
            let stripped = strip_leading_char(ts, first);
            let cur = if first == '€' {
                CurrencyCode::Eur
            } else if first == '£' {
                CurrencyCode::Gbp
            } else {
                CurrencyCode::Usd
            };
            (cur, trim(stripped.as_str()))
        } else {
            (CurrencyCode::Eur, trim(ts))
        };
        proof {
            assert(trimmed(t@) == t@) by {
                lemma_trimmed_idempotent(amount_str@);
            }
        }
        match Decimal::parse(number.as_str()) {
            Some(d) => Ok((d, currency)),
            None => Err(ParserError::InvalidAmount { value: t, line }),
        }
    }
}

proof fn lemma_trimmed_idempotent(s: Seq<char>)
    ensures
        trimmed(trimmed(s)) == trimmed(s),
{
    lemma_trim_start_idempotent(s);
    lemma_trim_end_keeps_start(trim_start(s));
    lemma_trim_end_idempotent(trim_start(s));
}

proof fn lemma_trim_start_idempotent(s: Seq<char>)
    ensures
        trim_start(trim_start(s)) == trim_start(s),
        trim_start(s).len() == 0 || !crate::text::is_ws(trim_start(s)[0]),
    decreases s.len(),
{
    if s.len() > 0 && crate::text::is_ws(s[0]) {
        lemma_trim_start_idempotent(s.drop_first());
    }
}

proof fn lemma_trim_end_idempotent(s: Seq<char>)
    ensures
        crate::text::trim_end(crate::text::trim_end(s)) == crate::text::trim_end(s),
        crate::text::trim_end(s).len() == 0 || !crate::text::is_ws(crate::text::trim_end(s).last()),
    decreases s.len(),
{
    if s.len() > 0 && crate::text::is_ws(s.last()) {
        lemma_trim_end_idempotent(s.drop_last());
    }
}

/// Trimming the end of a string with no leading whitespace leaves none there.
proof fn lemma_trim_end_keeps_start(s: Seq<char>)
    requires
        s.len() == 0 || !crate::text::is_ws(s[0]),
    ensures
        trim_start(crate::text::trim_end(s)) == crate::text::trim_end(s),
    decreases s.len(),
{
    if s.len() > 0 && crate::text::is_ws(s.last()) {
        let t = s.drop_last();
        if t.len() > 0 {
            assert(t[0] == s[0]);
        }
        lemma_trim_end_keeps_start(t);
    }
}

// ───────────────────────────── records ─────────────────────────────

/// CSV statement parser implementation.
pub struct CSVStatementParser;

/// The amount kept after the sign rule: refunds are made positive, other
/// lines keep their sign.
pub open spec fn signed_statement_amount(amount: Decimal, kind: Seq<char>) -> Decimal {
    if kind == "Refund"@ {
        abs_spec(amount)
    } else {
        amount
    }
}

/// The notes stored for a statement line.
pub open spec fn statement_notes(id: Seq<char>, card: Seq<char>) -> Seq<char> {
    "Statement ID: "@ + id + " | Card: "@ + card
}

/// The error `parse_record` reports for the fields `r` of line `line`, if
/// any: the first missing field or unreadable value, in column order.
pub open spec fn record_failure(r: Seq<Seq<char>>, line: usize) -> Option<ParserErrorView> {
    if r.len() < 1 {
        Some(ParserErrorView::MissingField { field: "id"@, line })
    } else if r.len() < 2 {
        Some(ParserErrorView::MissingField { field: "time"@, line })
    } else if statement_timestamp(r[1]) is None {
        Some(ParserErrorView::InvalidTimestamp { value: r[1], line })
    } else if r.len() < 3 {
        Some(ParserErrorView::MissingField { field: "merchant"@, line })
    } else if r.len() < 4 {
        Some(ParserErrorView::MissingField { field: "type"@, line })
    } else if r.len() < 5 {
        Some(ParserErrorView::MissingField { field: "amount"@, line })
    } else if parse_amount_spec(r[4], line) is Err {
        Some(parse_amount_spec(r[4], line)->Err_0)
    } else if r.len() < 6 {
        Some(ParserErrorView::MissingField { field: "card"@, line })
    } else {
        None
    }
}

/// Whether `t` is the transaction read from the fields `r` of line `line`
/// (every field but the random `temp_id`).
pub open spec fn parsed_from_record(t: ParsedTransaction, r: Seq<Seq<char>>, line: usize) -> bool {
    &&& r.len() >= 6
    &&& statement_timestamp(r[1]) matches Some(secs) && t.date == (Timestamp {
        seconds: secs as i64,
        nanos: 0,
    })
    &&& parse_amount_spec(r[4], line) matches Ok(ac) && {
        let amount = ac.0;
        let currency = ac.1;
        &&& t.amount == signed_statement_amount(amount, r[3])
        &&& if currency != CurrencyCode::Eur {
            t.original_currency matches Some(c) && c@ == currency_code_label(currency)
                && t.original_amount == Some(amount)
        } else {
            t.original_currency is None && t.original_amount is None
        }
    }
    &&& t.title@ == trimmed(r[2])
    &&& t.notes matches Some(n) && n@ == statement_notes(trimmed(r[0]), trimmed(r[5]))
    &&& t.is_valid
    &&& t.validation_errors is None
    &&& !t.is_potential_duplicate
    &&& t.duplicate_match is None
}

impl CSVStatementParser {
    /// Parse the fields of one CSV record (line `line_number`) into a
    /// transaction carrying the given temporary id.
    ///
    /// Expected columns: id, time, merchant, type, amount, card.
    pub fn parse_record(&self, record: &Vec<String>, line_number: usize, temp_id: String) -> (res: Result<ParsedTransaction, ParserError>)
        ensures
            match record_failure(record@.map_values(|f: String| f@), line_number) {
                Some(e) => res matches Err(r) && parser_error_view(r) == e,
                None => res matches Ok(t) && parsed_from_record(t, record@.map_values(|f: String| f@), line_number)
                    && t.temp_id == temp_id,
            },
    {
        let ghost r = record@.map_values(|f: String| f@);
        let n = record.len();
        if n < 1 {
            return Err(ParserError::MissingField { field: "id", line: line_number });
        }
        let statement_id = trim(record[0].as_str());
        if n < 2 {
            return Err(ParserError::MissingField { field: "time", line: line_number });
        }
        let time_str = record[1].as_str();
        let seconds = match parse_statement_time(time_str) {
            Some(s) => s,
            None => {
                return Err(ParserError::InvalidTimestamp { value: owned(time_str), line: line_number });
            },
        };
        let date = Timestamp { seconds, nanos: 0 };
        if n < 3 {
            return Err(ParserError::MissingField { field: "merchant", line: line_number });
        }
        let title = trim(record[2].as_str());
        if n < 4 {
            return Err(ParserError::MissingField { field: "type", line: line_number });
        }
        let transaction_type = record[3].as_str();
        if n < 5 {
            return Err(ParserError::MissingField { field: "amount", line: line_number });
        }
        let (amount, currency) = match self.parse_amount(record[4].as_str(), line_number) {
            Ok(v) => v,
            Err(e) => {
                return Err(e);
            },
        };
        if n < 6 {
            return Err(ParserError::MissingField { field: "card", line: line_number });
        }
        let card = trim(record[5].as_str());
        let final_amount = if str_eq(transaction_type, "Refund") {
            proof {
                assert(amount.mantissa != i128::MIN) by {
                    assert(decimal_holds(parsed_decimal(amount_number(trimmed(record@[4]@)))));
                }
            }
            amount.abs()
        } else {
            amount
        };
        let mut notes = owned("Statement ID: ");
        push_str(&mut notes, statement_id.as_str());
        push_str(&mut notes, " | Card: ");
        push_str(&mut notes, card.as_str());
        let (original_currency, original_amount) = if currency != CurrencyCode::Eur {
            (Some(owned(currency.as_str())), Some(amount))
        } else {
            (None, None)
        };
        Ok(ParsedTransaction {
            temp_id,
            title,
            amount: final_amount,
            date,
            notes: Some(notes),
            original_currency,
            original_amount,
            is_valid: true,
            validation_errors: None,
            is_potential_duplicate: false,
            duplicate_match: None,
        })
    }
}

/// The fields of a record as character sequences.
pub open spec fn fields_view(r: Seq<Seq<char>>) -> Seq<Seq<char>> {
    r
}

/// The error reported for the record at index `i` (line `i + 2`), if the
/// parser stops there: the transaction limit is checked first, then the
/// reader's error, then the record's own fields.
pub open spec fn failure_at(
    records: Seq<Result<Seq<Seq<char>>, Seq<char>>>,
    i: int,
    max: usize,
) -> Option<ParserErrorView> {
    if i >= max {
        Some(ParserErrorView::TooManyTransactions { found: (i + 1) as usize, max })
    } else {
        match records[i] {
            Err(e) => Some(ParserErrorView::CsvError { line: (i + 2) as usize, error: e }),
            Ok(fields) => record_failure(fields, (i + 2) as usize),
        }
    }
}

/// The first failure from index `i` on, if any.
pub open spec fn first_failure(
    records: Seq<Result<Seq<Seq<char>>, Seq<char>>>,
    i: int,
    max: usize,
) -> Option<ParserErrorView>
    decreases records.len() - i,
{
    if i < 0 || i >= records.len() {
        None
    } else if failure_at(records, i, max) is Some {
        failure_at(records, i, max)
    } else {
        first_failure(records, i + 1, max)
    }
}

/// Whether `txs` are the transactions read from `records` (every record
/// read, line numbers counted from 2 for the header).
pub open spec fn all_parsed(txs: Seq<ParsedTransaction>, records: Seq<Result<Seq<Seq<char>>, Seq<char>>>) -> bool {
    &&& txs.len() == records.len()
    &&& forall|i: int| 0 <= i < records.len() ==> #[trigger] parsed_at(txs, records, i)
}

/// Whether the transaction at `i` is the one read from record `i` (line `i + 2`).
pub open spec fn parsed_at(txs: Seq<ParsedTransaction>, records: Seq<Result<Seq<Seq<char>>, Seq<char>>>, i: int) -> bool {
    records[i] is Ok && parsed_from_record(txs[i], records[i]->Ok_0, (i + 2) as usize)
}

proof fn lemma_first_failure_none(records: Seq<Result<Seq<Seq<char>>, Seq<char>>>, i: int, max: usize)
    requires
        0 <= i <= records.len(),
        first_failure(records, i, max) is None,
    ensures
        forall|k: int| i <= k < records.len() ==> failure_at(records, k, max) is None,
    decreases records.len() - i,
{
    if i < records.len() {
        lemma_first_failure_none(records, i + 1, max);
    }
}

impl CSVStatementParser {
    /// Reads the transactions of already-split CSV records.
    ///
    /// Stops at the first record over the limit, the first record the
    /// reader could not read, or the first record with a missing or
    /// unreadable field; refuses a statement with no records.
    pub fn parse_records(&self, records: &Vec<Result<Vec<String>, String>>, max_transactions: usize) -> (res: Result<Vec<ParsedTransaction>, ParserError>)
        requires
            records.len() < usize::MAX - 2,
        ensures
            ({
                let rv = records@.map_values(|r: Result<Vec<String>, String>| record_view(r));
                match first_failure(rv, 0, max_transactions) {
                    Some(e) => res matches Err(r) && parser_error_view(r) == e,
                    None => if records.len() == 0 {
                        res matches Err(r) && parser_error_view(r) == ParserErrorView::EmptyFile
                    } else {
                        res matches Ok(txs) && all_parsed(txs@, rv)
                    },
                }
            }),
    {
        let ghost rv = records@.map_values(|r: Result<Vec<String>, String>| record_view(r));
        let mut transactions: Vec<ParsedTransaction> = Vec::new();
        let n = records.len();
        let mut index: usize = 0;
        while index < n
            invariant
                n == records.len(),
                n < usize::MAX - 2,
                index <= n,
                rv == records@.map_values(|r: Result<Vec<String>, String>| record_view(r)),
                transactions.len() == index,
                first_failure(rv, 0, max_transactions) == first_failure(rv, index as int, max_transactions),
                forall|k: int| 0 <= k < index ==> #[trigger] parsed_at(transactions@, rv, k),
            decreases n - index,
        {
            if transactions.len() >= max_transactions {
                return Err(ParserError::TooManyTransactions { found: index + 1, max: max_transactions });
            }
            let fields = match &records[index] {
                Ok(f) => f,
                Err(e) => {
                    return Err(ParserError::CsvError { line: index + 2, error: e.clone() });
                },
            };
            assert(rv[index as int] == record_view(records@[index as int]));
            assert(fields@.map_values(|f: String| f@) == rv[index as int]->Ok_0);
            let temp_id = new_temp_id();
            let transaction = match self.parse_record(fields, index + 2, temp_id) {
                Ok(t) => t,
                Err(e) => {
                    return Err(e);
                },
            };
            assert(record_failure(rv[index as int]->Ok_0, (index + 2) as usize) is None);
            assert(failure_at(rv, index as int, max_transactions) is None);
            assert(rv[index as int] is Ok);
            assert(parsed_from_record(transaction, rv[index as int]->Ok_0, (index + 2) as usize));
            let ghost old_txs = transactions@;
            transactions.push(transaction);
            assert forall|k: int| 0 <= k < index + 1 implies #[trigger] parsed_at(transactions@, rv, k) by {
                if k < index {
                    assert(parsed_at(old_txs, rv, k));
                    assert(transactions@[k] == old_txs[k]);
                } else {
                    assert(transactions@[k] == transaction);
                }
            }
            index = index + 1;
        }
        assert(rv.len() == n);
        assert(first_failure(rv, n as int, max_transactions) is None);
        if transactions.len() == 0 {
            return Err(ParserError::EmptyFile);
        }
        assert(transactions@.len() == rv.len());
        assert(all_parsed(transactions@, rv));
        Ok(transactions)
    }
}

/// The problems found in a parsed transaction that do not depend on the
/// clock, in the order they are reported.
pub open spec fn base_problems(t: ParsedTransaction) -> Seq<ValidationError> {
    let a = if trimmed(t.title@).len() == 0 {
        seq![ValidationError::EmptyTitle]
    } else {
        Seq::empty()
    };
    let b = if (vstd::utf8::encode_utf8(t.title@).len() as usize) > 255 {
        seq![ValidationError::TitleTooLong]
    } else {
        Seq::empty()
    };
    let c = if sign_of(t.amount) == 0 {
        seq![ValidationError::ZeroAmount]
    } else {
        Seq::empty()
    };
    a + b + c
}

/// A line is reported as dated in the future exactly when its date is after
/// the instant it is checked at, and its other problems do not depend on
/// that instant; so a line dated before the Unix epoch, checked at any
/// clock reading, is never reported as dated in the future.
pub proof fn lemma_future_only_after_clock(t: ParsedTransaction, clock: Timestamp, other: Timestamp)
    ensures
        problems_at(t, clock).contains(ValidationError::FutureDate) <==> is_before(clock, t.date),
        problems_at(t, clock).len() - (if is_before(clock, t.date) { 1int } else { 0 }) == base_problems(t).len(),
        !is_before(clock, t.date) && !is_before(other, t.date) ==> problems_at(t, clock) == problems_at(t, other),
        clock.seconds >= 0 && t.date.seconds < 0 ==> !problems_at(t, clock).contains(ValidationError::FutureDate),
{
    let b = base_problems(t);
    assert(!b.contains(ValidationError::FutureDate)) by {
        if b.contains(ValidationError::FutureDate) {
            let k = choose|k: int| 0 <= k < b.len() && b[k] == ValidationError::FutureDate;
            assert(b[k] == ValidationError::FutureDate);
        }
    }
    if is_before(clock, t.date) {
        assert(b.push(ValidationError::FutureDate)[b.len() as int] == ValidationError::FutureDate);
    }
}

/// All problems of a parsed transaction checked at instant `now`.
pub open spec fn problems_at(t: ParsedTransaction, now: Timestamp) -> Seq<ValidationError> {
    if is_before(now, t.date) {
        base_problems(t).push(ValidationError::FutureDate)
    } else {
        base_problems(t)
    }
}

impl CSVStatementParser {
    /// Validate a parsed transaction against the instant `now`: empty title,
    /// title over 255 bytes, zero amount, date in the future.
    pub fn validate_at(&self, transaction: &ParsedTransaction, now: Timestamp) -> (res: Vec<ValidationError>)
        ensures
            res@ == problems_at(*transaction, now),
    {
        let mut errors: Vec<ValidationError> = Vec::new();
        let title = trim(transaction.title.as_str());
        if title.as_str().unicode_len() == 0 {
            errors.push(ValidationError::EmptyTitle);
        }
        if transaction.title.as_str().len() > 255 {
            errors.push(ValidationError::TitleTooLong);
        }
        if transaction.amount.is_zero() {
            errors.push(ValidationError::ZeroAmount);
        }
        if now.is_before(&transaction.date) {
            errors.push(ValidationError::FutureDate);
        }
        proof {
            let a = if trimmed(transaction.title@).len() == 0 {
                seq![ValidationError::EmptyTitle]
            } else {
                Seq::empty()
            };
            let b = if (vstd::utf8::encode_utf8(transaction.title@).len() as usize) > 255 {
                seq![ValidationError::TitleTooLong]
            } else {
                Seq::empty()
            };
            let c = if sign_of(transaction.amount) == 0 {
                seq![ValidationError::ZeroAmount]
            } else {
                Seq::empty()
            };
            assert(base_problems(*transaction) == a + b + c);
        }
        errors
    }
}

/// A reader of financial statements (CSV, PDF, ...) behind one interface.
pub trait StatementParser: Send + Sync {
    /// Reads the transactions of a statement.
    fn parse(&self, content: &[u8], config: &ImportConfig) -> Result<Vec<ParsedTransaction>, ParserError>;

    /// The problems of a parsed transaction.
    fn validate(&self, transaction: &ParsedTransaction) -> Vec<ValidationError>;

    /// The file extensions the parser reads.
    fn supported_extensions(&self) -> Vec<&'static str>;

    /// The parser's name.
    fn name(&self) -> &'static str;
}

impl StatementParser for CSVStatementParser {
    /// Validate a parsed transaction against the current time: the
    /// problems at the instant read from the clock, which is not before the
    /// Unix epoch.
    fn validate(&self, transaction: &ParsedTransaction) -> (res: Vec<ValidationError>)
        ensures
            exists|clock: Timestamp| clock.seconds >= 0 && res@ == problems_at(*transaction, clock),
    {
        let t = now();
        self.validate_at(transaction, t)
    }

    /// Reads a CSV statement: header line first, then one transaction per
    /// record, at most `config.max_transactions` of them. A statement of so
    /// many records that their line numbers leave `usize` is refused as too
    /// many transactions.
    fn parse(&self, content: &[u8], config: &ImportConfig) -> (res: Result<Vec<ParsedTransaction>, ParserError>)
        ensures
            ({
                let rv = csv_records(content@);
                if rv.len() >= usize::MAX - 2 {
                    res matches Err(r) && parser_error_view(r) == (ParserErrorView::TooManyTransactions {
                        found: rv.len() as usize,
                        max: config.max_transactions,
                    })
                } else {
                    match first_failure(rv, 0, config.max_transactions) {
                        Some(e) => res matches Err(r) && parser_error_view(r) == e,
                        None => if rv.len() == 0 {
                            res matches Err(r) && parser_error_view(r) == ParserErrorView::EmptyFile
                        } else {
                            res matches Ok(txs) && all_parsed(txs@, rv)
                        },
                    }
                }
            }),
    {
        let records = read_csv_records(content);
        if records.len() >= usize::MAX - 2 {
            return Err(ParserError::TooManyTransactions { found: records.len(), max: config.max_transactions });
        }
        self.parse_records(&records, config.max_transactions)
    }

    /// File extensions this parser reads.
    fn supported_extensions(&self) -> (res: Vec<&'static str>)
        ensures
            res@.len() == 1,
            res@[0]@ == ".csv"@,
    {
        let mut v: Vec<&'static str> = Vec::new();
        v.push(".csv");
        v
    }

    /// Parser name/description.
    fn name(&self) -> (res: &'static str)
        ensures
            res@ == "CSV Statement Parser"@,
    {
        "CSV Statement Parser"
    }
}

/// Parser factory for creating the parser for a file type.
pub struct ParserFactory;

impl ParserFactory {
    /// The parser for a file extension (including the dot, compared after
    /// Unicode lower-casing).
    pub fn get_parser(file_extension: &str) -> (res: Result<CSVStatementParser, ParserError>)
        ensures
            vstd::utf8::is_ascii_chars(file_extension@) ==> unicode_lowercase(file_extension@)
                == file_extension@.map_values(|c: char| ascii_lower_char(c)),
            if unicode_lowercase(file_extension@) == ".csv"@ {
                res is Ok
            } else {
                res matches Err(r) && parser_error_view(r) == (ParserErrorView::UnsupportedFileType {
                    extension: file_extension@,
                })
            },
    {
        let lower = to_lowercase(file_extension);
        if str_eq(lower.as_str(), ".csv") {
            Ok(CSVStatementParser)
        } else {
            Err(ParserError::UnsupportedFileType { extension: owned(file_extension) })
        }
    }

    /// All supported extensions; each is ASCII text whose lower case is an
    /// extension `get_parser` takes.
    pub fn supported_extensions() -> (res: Vec<&'static str>)
        ensures
            res@.len() == 1,
            res@[0]@ == ".csv"@,
            forall|i: int|
                0 <= i < res@.len() ==> vstd::utf8::is_ascii_chars((#[trigger] res@[i])@) && res@[i]@.map_values(
                    |c: char| ascii_lower_char(c),
                ) == ".csv"@,
    {
        proof {
            reveal_strlit(".csv");
            assert(".csv"@.map_values(|c: char| ascii_lower_char(c)) =~= ".csv"@);
        }
        let mut v: Vec<&'static str> = Vec::new();
        v.push(".csv");
        v
    }
}

} // verus!
