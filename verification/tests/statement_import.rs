use master_of_coin_backend::decimal::Decimal;
use master_of_coin_backend::models::{
    ExistingTransaction, ImportConfig, MatchedField, ParsedTransaction, ParserError, Timestamp, ValidationError,
};
use master_of_coin_backend::services::csv_parser_service::{CSVStatementParser, ParserFactory, StatementParser};
use master_of_coin_backend::services::import_service::{
    calculate_summary, check_duplicates, compare_with_existing, duplicate_search_days,
};
use master_of_coin_backend::types::{ConfidenceLevel, CurrencyCode};

fn d(m: i128, s: i64) -> Decimal {
    Decimal { mantissa: m, scale: s }
}

// 2024-03-10T12:00:00Z
const NOON: i64 = 1_710_072_000;

fn line(amount: Decimal, seconds: i64) -> ParsedTransaction {
    ParsedTransaction {
        temp_id: "t".to_string(),
        title: "Shop".to_string(),
        amount,
        date: Timestamp { seconds, nanos: 0 },
        notes: None,
        original_currency: None,
        original_amount: None,
        is_valid: true,
        validation_errors: None,
        is_potential_duplicate: false,
        duplicate_match: None,
    }
}

const CSV: &str = "id,time,merchant,type,amount,card\n\
s1,2024-03-10 12:00:00, Coffee Shop ,Payment,-3.50,1234\n\
s2,2024-03-11 09:30:00,Refund Store,Refund,-20.00,1234\n\
s3,2024-03-12 18:00:00,Pub,Payment,£-12.00,9999\n";

#[test]
fn parser_factory_picks_csv() {
    assert!(ParserFactory::get_parser(".CSV").is_ok());
    assert_eq!(
        ParserFactory::get_parser(".pdf").err(),
        Some(ParserError::UnsupportedFileType { extension: ".pdf".to_string() })
    );
    assert_eq!(ParserFactory::supported_extensions(), vec![".csv"]);
    let p = CSVStatementParser;
    assert_eq!(p.supported_extensions(), vec![".csv"]);
    assert_eq!(p.name(), "CSV Statement Parser");
}

#[test]
fn csv_statement_is_read() {
    let p = CSVStatementParser;
    let out = p.parse(CSV.as_bytes(), &ImportConfig { max_transactions: 10 }).unwrap();
    assert_eq!(out.len(), 3);
    assert_eq!(out[0].title, "Coffee Shop");
    assert_eq!(out[0].amount, d(-350, 2));
    assert_eq!(out[0].date, Timestamp { seconds: NOON, nanos: 0 });
    assert_eq!(out[0].notes.as_deref(), Some("Statement ID: s1 | Card: 1234"));
    assert_eq!(out[0].original_currency, None);
    // a refund is counted as money in
    assert_eq!(out[1].amount, d(2000, 2));
    // a pound amount keeps its original currency
    assert_eq!(out[2].original_currency.as_deref(), Some("GBP"));
    assert_eq!(out[2].original_amount, Some(d(-1200, 2)));
}

#[test]
fn csv_statement_errors() {
    let p = CSVStatementParser;
    assert_eq!(
        p.parse(CSV.as_bytes(), &ImportConfig { max_transactions: 2 }).err(),
        Some(ParserError::TooManyTransactions { found: 3, max: 2 })
    );
    assert_eq!(
        p.parse(b"id,time,merchant,type,amount,card\n", &ImportConfig { max_transactions: 5 }).err(),
        Some(ParserError::EmptyFile)
    );
    let bad_time = "id,time,merchant,type,amount,card\ns1,10/03/2024,Shop,Payment,1.00,1\n";
    assert_eq!(
        p.parse(bad_time.as_bytes(), &ImportConfig { max_transactions: 5 }).err(),
        Some(ParserError::InvalidTimestamp { value: "10/03/2024".to_string(), line: 2 })
    );
    let bad_amount = "id,time,merchant,type,amount,card\ns1,2024-03-10 12:00:00,Shop,Payment,abc,1\n";
    assert_eq!(
        p.parse(bad_amount.as_bytes(), &ImportConfig { max_transactions: 5 }).err(),
        Some(ParserError::InvalidAmount { value: "abc".to_string(), line: 2 })
    );
}

#[test]
fn amount_currency_prefixes() {
    let p = CSVStatementParser;
    assert_eq!(p.parse_amount(" €12.30 ", 2), Ok((d(1230, 2), CurrencyCode::Eur)));
    assert_eq!(p.parse_amount("$-1", 2), Ok((d(-1, 0), CurrencyCode::Usd)));
    assert_eq!(p.parse_amount("7.5", 2), Ok((d(75, 1), CurrencyCode::Eur)));
}

#[test]
fn validation_of_a_line() {
    let p = CSVStatementParser;
    let mut t = line(d(0, 0), NOON);
    t.title = "   ".to_string();
    let now = Timestamp { seconds: NOON - 10, nanos: 0 };
    assert_eq!(
        p.validate_at(&t, now),
        vec![ValidationError::EmptyTitle, ValidationError::ZeroAmount, ValidationError::FutureDate]
    );
    let mut long = line(d(1, 0), NOON);
    long.title = "x".repeat(256);
    assert_eq!(p.validate_at(&long, Timestamp { seconds: NOON, nanos: 0 }), vec![ValidationError::TitleTooLong]);
}

#[test]
fn confidence_of_a_match() {
    let t = Timestamp { seconds: NOON, nanos: 0 };
    assert_eq!(compare_with_existing(&d(-350, 2), &t, &d(-35, 1), &t), Some(ConfidenceLevel::High));
    let later = Timestamp { seconds: NOON + 60, nanos: 0 };
    assert_eq!(compare_with_existing(&d(-350, 2), &t, &d(-350, 2), &later), Some(ConfidenceLevel::Medium));
    let next_day = Timestamp { seconds: NOON + 86_400, nanos: 0 };
    assert_eq!(compare_with_existing(&d(-350, 2), &t, &d(-350, 2), &next_day), Some(ConfidenceLevel::Low));
    let far = Timestamp { seconds: NOON + 3 * 86_400, nanos: 0 };
    assert_eq!(compare_with_existing(&d(-350, 2), &t, &d(-350, 2), &far), None);
    assert_eq!(compare_with_existing(&d(-350, 2), &t, &d(-351, 2), &t), None);
}

#[test]
fn duplicates_are_flagged_with_the_strongest_match() {
    let mut lines = vec![line(d(-350, 2), NOON), line(d(-999, 2), NOON)];
    let existing = vec![
        ExistingTransaction { id: 1, amount: "-3.50".to_string(), date: Timestamp { seconds: NOON + 60, nanos: 0 } },
        ExistingTransaction { id: 2, amount: "-3.5".to_string(), date: Timestamp { seconds: NOON, nanos: 0 } },
    ];
    assert_eq!(check_duplicates(&mut lines, &existing), Ok(()));
    assert!(lines[0].is_potential_duplicate);
    let m = lines[0].duplicate_match.as_ref().unwrap();
    assert_eq!(m.transaction_id, 2);
    assert_eq!(m.confidence, ConfidenceLevel::High);
    assert_eq!(m.matched_on, vec![MatchedField::Date, MatchedField::Time, MatchedField::Amount]);
    assert!(!lines[1].is_potential_duplicate);
    assert!(lines[1].duplicate_match.is_none());
    let bad = vec![ExistingTransaction { id: 3, amount: "n/a".to_string(), date: Timestamp { seconds: 0, nanos: 0 } }];
    let mut again = vec![line(d(1, 0), NOON)];
    assert!(check_duplicates(&mut again, &bad).is_err());
}

#[test]
fn search_window_and_summary() {
    let lines = vec![line(d(-350, 2), NOON), line(d(1200, 2), NOON + 2 * 86_400), line(d(0, 0), NOON)];
    let day = NOON / 86_400;
    assert_eq!(duplicate_search_days(&lines), Some((day - 1, day + 3)));
    assert_eq!(duplicate_search_days(&vec![]), None);
    let s = calculate_summary(&lines);
    assert_eq!(s.total, 3);
    assert_eq!(s.income, 1);
    assert_eq!(s.expenses, 1);
    // income, expenses and zero lines together make up the total
    assert_eq!(s.income + s.expenses + 1, s.total);
    assert_eq!(s.duplicates, 0);
    assert_eq!(s.invalid, 0);
}
