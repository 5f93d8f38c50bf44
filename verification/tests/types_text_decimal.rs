use bigdecimal::num_bigint::BigInt;
use master_of_coin_backend::decimal::{add, remainder, sub, sum, total, Decimal, WideDecimal};
use master_of_coin_backend::models::Timestamp;
use master_of_coin_backend::services::bank_provider::types::BankBalance;
use master_of_coin_backend::services::bank_sync_service::balance_info;
use master_of_coin_backend::services::exchange_rate_service::convert_currency;
use master_of_coin_backend::services::split_sync_service::mismatch_summary;
use master_of_coin_backend::text::{compare_text, contains_str, i64_text, parse_i64, trim, IntErrorKind};
use master_of_coin_backend::types::{
    AccountType, ApiKeyStatus, BankProviderType, BudgetPeriod, ConfidenceLevel, CurrencyCode, InvestmentProviderType,
    JobStatus, JobType, SplitProviderType,
};
use master_of_coin_backend::version::{app_version, git_sha};

fn d(m: i128, s: i64) -> Decimal {
    Decimal { mantissa: m, scale: s }
}

fn wide(m: i128, s: i64) -> WideDecimal {
    WideDecimal { digits: BigInt::from(m).to_signed_bytes_be(), scale: s }
}

#[test]
fn account_type_labels_roundtrip() {
    for t in [
        AccountType::Checking,
        AccountType::Savings,
        AccountType::CreditCard,
        AccountType::Investment,
        AccountType::Cash,
    ] {
        assert_eq!(AccountType::from_sql_label(t.to_sql_label()), Ok(t));
    }
    assert_eq!(AccountType::Checking.to_sql_label(), "CHECKING");
    assert_eq!(AccountType::CreditCard.to_sql_label(), "CREDIT_CARD");
    assert!(AccountType::from_sql_label("checking").is_err());
}

#[test]
fn other_enum_labels_roundtrip() {
    for t in [ApiKeyStatus::Active, ApiKeyStatus::Revoked, ApiKeyStatus::Expired] {
        assert_eq!(ApiKeyStatus::from_sql_label(t.to_sql_label()), Ok(t));
    }
    assert_eq!(BankProviderType::from_sql_label("TRUELAYER"), Ok(BankProviderType::TrueLayer));
    assert_eq!(BankProviderType::TrueLayer.display_text(), "TRUELAYER");
    for t in [
        BudgetPeriod::Daily,
        BudgetPeriod::Weekly,
        BudgetPeriod::Monthly,
        BudgetPeriod::Quarterly,
        BudgetPeriod::Yearly,
    ] {
        assert_eq!(BudgetPeriod::from_sql_label(t.to_sql_label()), Ok(t));
    }
    for t in [
        CurrencyCode::Usd,
        CurrencyCode::Eur,
        CurrencyCode::Gbp,
        CurrencyCode::Inr,
        CurrencyCode::Jpy,
        CurrencyCode::Aud,
        CurrencyCode::Cad,
    ] {
        assert_eq!(CurrencyCode::from_sql_label(t.to_sql_label()), Ok(t));
        assert_eq!(t.as_str(), t.to_sql_label());
    }
    assert_eq!(InvestmentProviderType::Trading212.to_sql_label(), "TRADING_212");
    assert_eq!(
        InvestmentProviderType::from_sql_label("TRADING_212"),
        Ok(InvestmentProviderType::Trading212)
    );
    for t in [JobType::DriftDetection, JobType::BulkSync, JobType::PortfolioSync, JobType::BankSync] {
        assert_eq!(JobType::from_sql_label(t.to_sql_label()), Ok(t));
    }
    for t in [JobStatus::Pending, JobStatus::Running, JobStatus::Completed, JobStatus::Failed] {
        assert_eq!(JobStatus::from_sql_label(t.to_sql_label()), Ok(t));
    }
    assert_eq!(SplitProviderType::from_sql_label("splitpro"), Ok(SplitProviderType::SplitPro));
    assert_eq!(SplitProviderType::Splitwise.display_text(), "splitwise");
    assert_eq!(
        SplitProviderType::from_sql_label("SPLITWISE"),
        Err("Unrecognized enum variant for SplitProviderType".to_string())
    );
}

#[test]
fn confidence_levels() {
    assert_eq!(ConfidenceLevel::from_str("high"), Ok(ConfidenceLevel::High));
    assert_eq!(ConfidenceLevel::from_str("Medium"), Ok(ConfidenceLevel::Medium));
    assert_eq!(ConfidenceLevel::from_str("LOW"), Ok(ConfidenceLevel::Low));
    assert_eq!(
        ConfidenceLevel::from_str("maybe"),
        Err("Invalid confidence level: maybe. Must be HIGH, MEDIUM, or LOW".to_string())
    );
    assert_eq!(ConfidenceLevel::min_duplicate_threshold(), ConfidenceLevel::Medium);
    assert!(ConfidenceLevel::High.is_duplicate());
    assert!(ConfidenceLevel::Medium.is_duplicate());
    assert!(!ConfidenceLevel::Low.is_duplicate());
}

#[test]
fn job_status_terminal() {
    assert!(JobStatus::Completed.is_terminal());
    assert!(JobStatus::Failed.is_terminal());
    assert!(!JobStatus::Pending.is_terminal());
    assert!(!JobStatus::Running.is_terminal());
}

#[test]
fn integer_text() {
    assert_eq!(parse_i64("-42"), Ok(-42));
    assert_eq!(parse_i64("+7"), Ok(7));
    assert_eq!(parse_i64(""), Err(IntErrorKind::Empty));
    assert_eq!(parse_i64("4x"), Err(IntErrorKind::InvalidDigit));
    assert_eq!(parse_i64("9223372036854775808"), Err(IntErrorKind::PosOverflow));
    assert_eq!(i64_text(-120), "-120");
    assert_eq!(i64_text(i64::MIN), "-9223372036854775808");
}

#[test]
fn text_order_and_search() {
    assert_eq!(compare_text("2024-01-05", "2024-01-10"), -1);
    assert_eq!(compare_text("2024-01-10", "2024-01-10"), 0);
    assert_eq!(compare_text("b", "abc"), 1);
    assert_eq!(compare_text("ab", "abc"), -1);
    assert!(contains_str("TESCO STORES 123", "TESCO"));
    assert!(!contains_str("Coffee", "Tea"));
    assert!(contains_str("anything", ""));
    assert_eq!(trim("  padded \t"), "padded");
}

#[test]
fn decimal_arithmetic() {
    let a = Decimal::parse("12.50").unwrap();
    assert_eq!(a, d(1250, 2));
    let b = Decimal::parse("-3.1").unwrap();
    assert_eq!(b, d(-31, 1));
    assert_eq!(add(&a, &b), Some(d(940, 2)));
    assert_eq!(sub(&a, &b), Some(d(1560, 2)));
    assert_eq!(sum(&vec![a, b, d(1, 0)]), Some(d(1040, 2)));
    assert_eq!(total(&vec![]), d(0, 0));
    assert_eq!(a.order(&b), 1);
    assert_eq!(d(100, 2).order(&d(1, 0)), 0);
    assert!(d(100, 2).same_value_as(&d(10, 1)));
    assert_eq!(b.abs(), d(31, 1));
    assert_eq!(b.signum(), -1);
    assert_eq!(add(&d(i128::MAX, 0), &d(1, 0)), None);
    assert!(Decimal::parse("abc").is_none());
}

#[test]
fn decimal_text_forms() {
    // a total as written, and balances with two decimals
    assert_eq!(mismatch_summary(&d(-1250, 2), "12.5").1, "12.50");
    let info = balance_info(&BankBalance {
        current: d(125, 1),
        available: Some(d(-5, 0)),
        currency: "GBP".to_string(),
        updated_at: Timestamp { seconds: 0, nanos: 0 },
    });
    assert_eq!(info.current, "12.50");
    assert_eq!(info.available, Some("-5.00".to_string()));
}

#[test]
fn decimal_product_and_remainder() {
    let rates = vec![(CurrencyCode::Usd, d(108, 2))];
    assert_eq!(convert_currency(&d(250, 2), CurrencyCode::Eur, CurrencyCode::Usd, &rates), Ok(wide(27000, 4)));
    // what remains of a total once the parts are taken
    assert_eq!(remainder(&d(-10000, 2), &vec![d(3000, 2), d(-2000, 2)]), d(5000, 2));
}

#[test]
fn build_version_settings() {
    assert_eq!(app_version(Some("0.21.0")), "0.21.0");
    assert_eq!(app_version(Some("   ")), "dev");
    assert_eq!(app_version(None), "dev");
    assert_eq!(git_sha(Some("a232171ffee")), "a232171");
    assert_eq!(git_sha(Some("abc")), "abc");
    assert_eq!(git_sha(Some("")), "unknown");
    assert_eq!(git_sha(None), "unknown");
}
