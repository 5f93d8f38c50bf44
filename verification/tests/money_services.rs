use bigdecimal::num_bigint::BigInt;
use master_of_coin_backend::decimal::{Decimal, WideDecimal};
use master_of_coin_backend::errors::ApiError;
use master_of_coin_backend::json::{JsonMember, JsonValue};
use master_of_coin_backend::models::Timestamp;
use master_of_coin_backend::services::account_service::{check_account_deletable, opening_balance};
use master_of_coin_backend::services::analytics_service::{
    calculate_net_worth, category_breakdown, get_spending_trend, AccountBalanceInput, CategorySpend, TrendTransaction,
};
use master_of_coin_backend::services::api_key_service::{
    check_key_owner, check_scopes_selected, key_check_step, key_expiry, no_matching_key, KeyAction, KeyStep,
};
use master_of_coin_backend::services::auth_service::{check_login, check_registration, UserLookup};
use master_of_coin_backend::services::budget_service::{
    budget_figures, budget_filter_ids, check_budget_owner, check_new_range, range_bounds, require_active_range,
};
use master_of_coin_backend::services::debt_service::{calculate_debt, collect_debts, plan_settlement, PersonSplits};
use master_of_coin_backend::services::debt_transaction_service::{
    check_debt_owners, debt_total_cost, find_user_owed_share, fix_paid_shares, signed_owed_amount,
};
use master_of_coin_backend::services::exchange_rate_service::{
    check_rates_answer, convert_currency, rates_url, supported_rates, ExchangeRateProvider,
};
use master_of_coin_backend::services::split_sync_service::ExpenseParticipantInput;
use master_of_coin_backend::time::CalendarDate;
use master_of_coin_backend::types::{BudgetPeriod, CurrencyCode};

fn d(m: i128, s: i64) -> Decimal {
    Decimal { mantissa: m, scale: s }
}

fn wide(m: i128, s: i64) -> WideDecimal {
    WideDecimal { digits: BigInt::from(m).to_signed_bytes_be(), scale: s }
}

fn day(year: i32, month: u32, day: u32) -> CalendarDate {
    CalendarDate { year, month, day }
}

fn participant(name: &str, ext: Option<&str>, paid: &str, owed: &str) -> ExpenseParticipantInput {
    ExpenseParticipantInput {
        name: name.to_string(),
        external_user_id: ext.map(|s| s.to_string()),
        paid_share: paid.to_string(),
        owed_share: owed.to_string(),
    }
}

#[test]
fn net_worth_sums_the_balances() {
    let w = calculate_net_worth(&vec![
        AccountBalanceInput { account_id: 1, account_name: "Checking".to_string(), balance: d(120050, 2) },
        AccountBalanceInput { account_id: 2, account_name: "Card".to_string(), balance: d(-2005, 1) },
    ]);
    assert_eq!(w.total, "1000.00");
    assert_eq!(w.accounts[1].balance, "-200.5");
    assert_eq!(calculate_net_worth(&vec![]).total, "0");
}

#[test]
fn spending_trend_by_day() {
    // 2024-03-10T12:00:00Z and the next day
    let t1 = Timestamp { seconds: 1_710_072_000, nanos: 0 };
    let t2 = Timestamp { seconds: 1_710_072_000 + 86_400, nanos: 0 };
    let trend = get_spending_trend(&vec![
        TrendTransaction { date: t2, amount: d(-500, 2) },
        TrendTransaction { date: t1, amount: d(-150, 2) },
        TrendTransaction { date: t1, amount: d(2000, 2) },
        TrendTransaction { date: t1, amount: d(-25, 1) },
    ])
    .unwrap();
    assert_eq!(trend.len(), 2);
    assert_eq!((trend[0].date.as_str(), trend[0].amount.as_str()), ("2024-03-10", "4.00"));
    assert_eq!((trend[1].date.as_str(), trend[1].amount.as_str()), ("2024-03-11", "5.00"));
    assert_eq!(get_spending_trend(&vec![]).unwrap().len(), 0);
}

#[test]
fn category_breakdown_largest_first() {
    let (groups, all) = category_breakdown(&vec![
        CategorySpend { category_id: Some(1), amount: d(-500, 2) },
        CategorySpend { category_id: None, amount: d(-2000, 2) },
        CategorySpend { category_id: Some(1), amount: d(-600, 2) },
        CategorySpend { category_id: Some(2), amount: d(9900, 2) },
    ])
    .unwrap();
    assert_eq!(all, d(3100, 2));
    assert_eq!(groups.len(), 2);
    assert_eq!(groups[0].category_id, None);
    assert_eq!(groups[0].total, d(2000, 2));
    assert_eq!(groups[1].category_id, Some(1));
    assert_eq!(groups[1].total, d(1100, 2));
}

#[test]
fn budget_windows() {
    let today = day(2024, 5, 15); // a Wednesday
    assert_eq!(BudgetPeriod::Daily.current_window(today), (today, today));
    assert_eq!(BudgetPeriod::Weekly.current_window(today), (day(2024, 5, 13), day(2024, 5, 19)));
    assert_eq!(BudgetPeriod::Monthly.current_window(today), (day(2024, 5, 1), day(2024, 5, 31)));
    assert_eq!(BudgetPeriod::Quarterly.current_window(today), (day(2024, 4, 1), day(2024, 6, 30)));
    assert_eq!(BudgetPeriod::Yearly.current_window(today), (day(2024, 1, 1), day(2024, 12, 31)));
    // a leap February and a week across the year's end
    assert_eq!(BudgetPeriod::Monthly.current_window(day(2024, 2, 10)).1, day(2024, 2, 29));
    assert_eq!(BudgetPeriod::Weekly.current_window(day(2025, 1, 1)), (day(2024, 12, 30), day(2025, 1, 5)));
    assert_eq!(BudgetPeriod::Quarterly.current_window(day(2023, 11, 2)), (day(2023, 10, 1), day(2023, 12, 31)));
}

#[test]
fn budget_checks_and_figures() {
    assert_eq!(check_budget_owner(1, 2), Err(ApiError::Forbidden("Budget does not belong to user".to_string())));
    assert_eq!(
        check_new_range(day(2024, 5, 2), Some(day(2024, 5, 1)), "100"),
        Err(ApiError::Validation("End date must be after start date".to_string()))
    );
    assert_eq!(check_new_range(day(2024, 5, 1), None, "250.5"), Ok(d(2505, 1)));
    assert_eq!(
        check_new_range(day(2024, 5, 1), Some(day(2024, 5, 1)), "x"),
        Err(ApiError::Validation("Invalid limit amount".to_string()))
    );
    let (from, to) = range_bounds(day(1970, 1, 2), Some(day(1970, 1, 3)));
    assert_eq!(from, Timestamp { seconds: 86_400, nanos: 0 });
    assert_eq!(to, Some(Timestamp { seconds: 2 * 86_400 + 86_399, nanos: 0 }));
    let f = budget_figures(&vec![d(4000, 2), d(3050, 2)], &d(70, 0));
    assert_eq!(f.current_spending_text, "70.50");
    assert_eq!(f.limit_amount_text, "70");
    assert!(f.is_over_budget);
    assert!(!budget_figures(&vec![d(70, 0)], &d(7000, 2)).is_over_budget);
    assert_eq!(
        require_active_range::<u8>(None),
        Err(ApiError::NotFound("No active budget range for current date".to_string()))
    );
    let filters = JsonValue::Object(vec![JsonMember {
        key: "category_id".to_string(),
        value: JsonValue::String("550e8400-e29b-41d4-a716-446655440000".to_string()),
    }]);
    assert_eq!(budget_filter_ids(&filters), (Some(0x550e8400_e29b_41d4_a716_446655440000u128), None));
}

#[test]
fn debts() {
    assert_eq!(calculate_debt(1, 1, &vec![d(1000, 2), d(-250, 2)]), Ok("7.50".to_string()));
    assert_eq!(
        calculate_debt(2, 1, &vec![]),
        Err(ApiError::Forbidden("Person does not belong to user".to_string()))
    );
    let debts = collect_debts(&vec![
        PersonSplits { person_id: 1, person_name: "Ana".to_string(), amounts: vec![d(500, 2), d(-500, 2)] },
        PersonSplits { person_id: 2, person_name: "Bo".to_string(), amounts: vec![d(-300, 2)] },
    ]);
    assert_eq!(debts.len(), 1);
    assert_eq!((debts[0].person_id, debts[0].debt_amount.as_str()), (2, "-3.00"));
    let plan = plan_settlement("Bo", "25").unwrap();
    assert_eq!(plan.title, "Debt settlement with Bo");
    assert_eq!(plan.notes, "Settlement of debt with Bo");
    assert_eq!((plan.amount, plan.split_amount), (d(25, 0), d(-25, 0)));
    assert_eq!(plan_settlement("Bo", "?").err(), Some(ApiError::Validation("Invalid settlement amount".to_string())));
}

#[test]
fn debt_transactions() {
    assert_eq!(check_debt_owners(1, 1, Some(1)), Ok(()));
    assert_eq!(
        check_debt_owners(1, 2, None),
        Err(ApiError::Unauthorized("Person does not belong to user".to_string()))
    );
    assert_eq!(
        check_debt_owners(1, 1, Some(3)),
        Err(ApiError::Unauthorized("Category does not belong to user".to_string()))
    );
    assert_eq!(debt_total_cost(Some("80"), &d(-2000, 2)), d(80, 0));
    assert_eq!(debt_total_cost(None, &d(-2000, 2)), d(2000, 2));
    let ps = vec![
        participant("Payer", Some("7"), "80.00", "40.00"),
        participant("Me", None, "0.00", "40.00"),
    ];
    assert_eq!(find_user_owed_share(&ps, "Payer"), "40.00");
    let named = vec![
        participant("PAYER", Some("7"), "80.00", "50.00"),
        participant("Other", Some("8"), "0.00", "30.00"),
    ];
    assert_eq!(find_user_owed_share(&named, "payer"), "30.00");
    assert_eq!(find_user_owed_share(&vec![], "payer"), "0");
    assert_eq!(signed_owed_amount("30.00"), Ok(d(-3000, 2)));
    assert_eq!(signed_owed_amount("-5"), Ok(d(-5, 0)));
    assert_eq!(signed_owed_amount("x"), Err(ApiError::Validation("Invalid owed_share for user".to_string())));
    let mut fixed = ps.clone();
    fix_paid_shares(&mut fixed, &vec![true, false], "95.00");
    assert_eq!(fixed[0].paid_share, "95.00");
    assert_eq!(fixed[1].paid_share, "0.00");
}

#[test]
fn accounts_keys_and_logins() {
    assert_eq!(
        check_account_deletable(1, 1, true),
        Err(ApiError::Validation("Cannot delete account with existing transactions".to_string()))
    );
    assert_eq!(check_account_deletable(1, 1, false), Ok(()));
    let b = opening_balance(Some("150.25")).unwrap().unwrap();
    assert_eq!((b.title.as_str(), b.notes.as_str(), b.amount), ("Initial Balance", "Initial account balance", d(15025, 2)));
    assert!(opening_balance(Some("0.00")).unwrap().is_none());
    assert!(opening_balance(None).unwrap().is_none());
    assert_eq!(opening_balance(Some("x")).err(), Some(ApiError::Validation("Invalid initial balance".to_string())));
    assert_eq!(
        check_scopes_selected(true, true, true, true, true),
        Err(ApiError::Validation("At least one permission scope must be selected".to_string()))
    );
    assert_eq!(check_scopes_selected(true, false, true, true, true), Ok(()));
    assert_eq!(
        check_key_owner(1, 2, KeyAction::Revoke),
        Err(ApiError::Forbidden("You don't have permission to revoke this API key".to_string()))
    );
    assert_eq!(key_expiry(Timestamp { seconds: 100, nanos: 0 }, 2), Timestamp { seconds: 100 + 172_800, nanos: 0 });
    let now = Timestamp { seconds: 1000, nanos: 0 };
    assert!(matches!(key_check_step(Ok(true), None, now), KeyStep::Accept));
    assert!(matches!(key_check_step(Ok(false), None, now), KeyStep::Next));
    match key_check_step(Ok(true), Some(Timestamp { seconds: 999, nanos: 0 }), now) {
        KeyStep::Fail(e) => assert_eq!(e, ApiError::Unauthorized("API key has expired".to_string())),
        other => panic!("unexpected {:?}", other),
    }
    assert_eq!(no_matching_key(), ApiError::Unauthorized("Invalid API key".to_string()));
    assert_eq!(
        check_registration(UserLookup::NotFound, UserLookup::Found),
        Err(ApiError::Validation("Email already exists".to_string()))
    );
    assert_eq!(check_registration(UserLookup::NotFound, UserLookup::NotFound), Ok(()));
    assert_eq!(
        check_login(UserLookup::Found, false),
        Err(ApiError::Unauthorized("Invalid email or password".to_string()))
    );
    assert_eq!(check_login(UserLookup::Failed(ApiError::Internal), true), Err(ApiError::Internal));
}

#[test]
fn currency_conversion() {
    let rates = vec![(CurrencyCode::Usd, d(108, 2)), (CurrencyCode::Eur, d(1, 0))];
    assert_eq!(convert_currency(&d(1000, 2), CurrencyCode::Eur, CurrencyCode::Usd, &rates), Ok(wide(108000, 4)));
    assert_eq!(convert_currency(&d(1000, 2), CurrencyCode::Gbp, CurrencyCode::Gbp, &rates), Ok(wide(1000, 2)));
    assert_eq!(convert_currency(&d(1, 0), CurrencyCode::Eur, CurrencyCode::Jpy, &rates), Err(ApiError::Internal));
    // a rate of exactly one gives the amount back without its trailing zeros
    assert_eq!(convert_currency(&d(1000, 2), CurrencyCode::Usd, CurrencyCode::Eur, &rates), Ok(wide(1, -1)));
    assert_eq!(rates_url("KEY", CurrencyCode::Gbp), "https://v6.exchangerate-api.com/v6/KEY/latest/GBP");
    let listed = vec![
        ("JPY".to_string(), "162.5".to_string()),
        ("XYZ".to_string(), "1".to_string()),
        ("EUR".to_string(), "1".to_string()),
    ];
    let r = supported_rates(&listed).unwrap();
    assert_eq!(r, vec![(CurrencyCode::Eur, d(1, 0)), (CurrencyCode::Jpy, d(1625, 1))]);
    assert_eq!(supported_rates(&vec![("USD".to_string(), "n/a".to_string())]), Err(ApiError::Internal));
    assert_eq!(check_rates_answer(true, "success", true), Ok(()));
    assert_eq!(check_rates_answer(true, "error", true), Err(ApiError::Internal));
}

#[test]
fn conversion_beyond_i128_mantissas() {
    // the product keeps every digit: no mantissa bound applies to it
    let rates = vec![(CurrencyCode::Usd, d(i128::MAX, 2))];
    let big = convert_currency(&d(i128::MAX, 0), CurrencyCode::Eur, CurrencyCode::Usd, &rates).unwrap();
    let expected = BigInt::from(i128::MAX) * BigInt::from(i128::MAX);
    assert_eq!(big, WideDecimal { digits: expected.to_signed_bytes_be(), scale: 2 });
}

struct FixedRates;

impl ExchangeRateProvider for FixedRates {
    fn get_exchange_rates(&self, base_currency: CurrencyCode) -> Result<Vec<(CurrencyCode, Decimal)>, ApiError> {
        match base_currency {
            CurrencyCode::Eur => Ok(vec![(CurrencyCode::Eur, d(1, 0)), (CurrencyCode::Usd, d(108, 2))]),
            _ => Err(ApiError::External("no rates".to_string())),
        }
    }
}

#[test]
fn provider_conversions() {
    let p = FixedRates;
    assert_eq!(p.convert_currency(&d(100, 0), CurrencyCode::Eur, CurrencyCode::Usd), Ok(wide(10800, 2)));
    // the same currency asks for no rates
    assert_eq!(p.convert_currency(&d(5, 0), CurrencyCode::Gbp, CurrencyCode::Gbp), Ok(wide(5, 0)));
    assert_eq!(
        p.convert_currency(&d(5, 0), CurrencyCode::Gbp, CurrencyCode::Usd),
        Err(ApiError::External("no rates".to_string()))
    );
    assert_eq!(p.convert_currency(&d(5, 0), CurrencyCode::Eur, CurrencyCode::Jpy), Err(ApiError::Internal));
    assert_eq!(p.convert_to_primary_currency(&d(7, 0), CurrencyCode::Eur), Ok(wide(7, 0)));
}
