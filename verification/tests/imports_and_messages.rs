use master_of_coin_backend::decimal::Decimal;
use master_of_coin_backend::errors::ApiError;
use master_of_coin_backend::json::{JsonMember, JsonNumber, JsonValue};
use master_of_coin_backend::models::Timestamp;
use master_of_coin_backend::services::bank_provider::types::BankProviderError;
use master_of_coin_backend::services::bank_sync_service::{linked_account, sync_window};
use master_of_coin_backend::services::investment_provider::types::InvestmentProviderError;
use master_of_coin_backend::services::split_provider::splitpro::SplitProProvider;
use master_of_coin_backend::services::split_provider::splitwise::SplitwiseProvider;
use master_of_coin_backend::services::split_provider::types::{
    ExpenseUser, ExternalExpenseDetail, ExternalExpenseUser, SplitProviderError, UpdateExternalExpense,
};
use master_of_coin_backend::services::split_sync_service::{
    debt_import, debt_import_message, debt_metadata_from_expense, expense_date, expense_participants, imported_person,
    local_group_shares, pull_updates, regular_import, regular_import_message, regular_import_splits, resolve_action,
    PersonSplitConfig, ResolveAction, TransactionSplit,
};
use master_of_coin_backend::services::transaction_service::{bulk_validation_error, check_bulk_metadata};
use master_of_coin_backend::types::CurrencyCode;
use master_of_coin_backend::utils::oauth_state::OAuthStateError;

const NOON: i64 = 1710072000; // 2024-03-10T12:00:00Z

fn at(seconds: i64) -> Timestamp {
    Timestamp { seconds, nanos: 0 }
}

fn d(m: i128, s: i64) -> Decimal {
    Decimal { mantissa: m, scale: s }
}

fn s(x: &str) -> JsonValue {
    JsonValue::String(x.to_string())
}

fn obj(members: Vec<(&str, JsonValue)>) -> JsonValue {
    JsonValue::Object(members.into_iter().map(|(k, v)| JsonMember { key: k.to_string(), value: v }).collect())
}

fn user(id: &str, first: &str, last: &str, paid: &str, owed: &str) -> ExternalExpenseUser {
    ExternalExpenseUser {
        external_user_id: id.to_string(),
        first_name: first.to_string(),
        last_name: last.to_string(),
        paid_share: paid.to_string(),
        owed_share: owed.to_string(),
    }
}

fn expense(cost: &str, currency: &str, date: &str, users: Vec<ExternalExpenseUser>) -> ExternalExpenseDetail {
    ExternalExpenseDetail {
        external_expense_id: "77".to_string(),
        description: "Dinner".to_string(),
        cost: cost.to_string(),
        currency_code: currency.to_string(),
        date: date.to_string(),
        users,
        provider_type: "splitwise".to_string(),
    }
}

fn split(person_id: u128, amount: Decimal, ext: &str) -> (TransactionSplit, PersonSplitConfig) {
    (
        TransactionSplit { id: person_id + 100, transaction_id: 1, person_id, amount },
        PersonSplitConfig { id: person_id + 200, person_id, split_provider_id: 9, external_user_id: ext.to_string() },
    )
}

#[test]
fn imported_dates_fall_back_in_order() {
    assert_eq!(expense_date("2024-03-10T12:00:00Z", at(5)), at(NOON));
    assert_eq!(expense_date("2024-03-10", at(5)), at(NOON - 12 * 3600));
    assert_eq!(expense_date("yesterday", at(5)), at(5));
}

#[test]
fn regular_imports_choose_an_account_in_the_currency() {
    let e = expense("30.00", "EUR", "2024-03-10", vec![]);
    let accounts = vec![(1u128, CurrencyCode::Usd), (2, CurrencyCode::Eur), (3, CurrencyCode::Eur)];
    let (account, t) = regular_import(&e, &accounts, at(5)).unwrap();
    assert_eq!(account, 2);
    assert_eq!(t.amount, d(-3000, 2));
    assert_eq!(t.title, "Dinner");
    assert_eq!(t.notes, "Imported from Splitwise (expense #77)");
    assert_eq!(t.date, at(NOON - 12 * 3600));
    assert_eq!(
        regular_import(&expense("30.00", "XYZ", "", vec![]), &accounts, at(5)).unwrap_err(),
        ApiError::BadRequest("Unsupported currency code: XYZ".to_string())
    );
    assert_eq!(
        regular_import(&expense("30.00", "GBP", "", vec![]), &accounts, at(5)).unwrap_err(),
        ApiError::BadRequest(
            "No non-debt account found for currency Gbp. Please create an account with this currency first.".to_string()
        )
    );
    assert_eq!(
        regular_import(&expense("abc", "EUR", "", vec![]), &accounts, at(5)).unwrap_err(),
        ApiError::BadRequest("Invalid expense cost: abc".to_string())
    );
}

#[test]
fn debt_imports_and_their_splits() {
    let users = vec![user("1", "Ann", "Lee", "30.00", "10.00"), user("2", "", "", "0.00", "20.00")];
    let e = expense("30.00", "EUR", "2024-03-10T12:00:00Z", users.clone());
    let imported = debt_import(&e, &d(2000, 2), at(5)).unwrap();
    assert_eq!(imported.currency, CurrencyCode::Eur);
    assert_eq!(imported.transaction.amount, d(-2000, 2));
    assert_eq!(imported.transaction.date, at(NOON));
    assert_eq!(imported.total_cost, d(3000, 2));
    assert_eq!(imported.participants.len(), 2);
    assert_eq!(imported.participants[0].get("name").unwrap().as_str(), Some("Ann Lee"));
    assert_eq!(imported.participants[1].get("name").unwrap().as_str(), Some(""));
    let fallback = debt_import(&expense("n/a", "EUR", "", users.clone()), &d(-2000, 2), at(5)).unwrap();
    assert_eq!(fallback.total_cost, d(2000, 2));
    let splits = regular_import_splits(&expense("30.00", "EUR", "", users.clone()), "1");
    assert_eq!(splits, vec![(1, d(-2000, 2))]);
    let with_zero = vec![user("1", "A", "", "30.00", "30.00"), user("2", "B", "", "0.00", "0"), user("3", "C", "", "0", "x")];
    assert!(regular_import_splits(&expense("30.00", "EUR", "", with_zero), "1").is_empty());
    assert_eq!(debt_import_message(&d(2000, 2), "1"), "Created debt transaction for 20.00 (paid by Splitwise user 1)");
    assert_eq!(regular_import_message("30.00"), "Created regular transaction for 30.00 (paid by current user)");
    let (name, notes) = imported_person(" ", " ", "42");
    assert_eq!(name, "Splitwise User 42");
    assert_eq!(notes, "Auto-created from Splitwise (external user ID: 42)");
    assert_eq!(imported_person("Ann", "", "42").0, "Ann");
}

#[test]
fn debt_metadata_follows_the_expense() {
    let e = expense(
        "30.00",
        "EUR",
        "",
        vec![user("9", "Bob", "Ray", "30.00", "10.00"), user("1", "Me", "", "0.00", "20.00")],
    );
    let update = debt_metadata_from_expense(&e, &d(-1500, 2));
    assert_eq!(update.total_cost, d(3000, 2));
    assert_eq!(update.new_amount, Some(d(-2000, 2)));
    assert_eq!(update.participants.len(), 2);
    assert_eq!(debt_metadata_from_expense(&e, &d(-20, 0)).new_amount, None);
    let participants = expense_participants(&e.users);
    assert_eq!(participants[0].get("owed_share").unwrap().as_str(), Some("10.00"));
}

#[test]
fn local_shares_of_a_group() {
    let splits = vec![split(5, d(-1000, 2), "e5"), split(6, d(-500, 2), "e6")];
    let people = vec![(5u128, "Eve".to_string())];
    let shares = local_group_shares("me", "Me", &d(-3000, 2), &splits, &people);
    assert_eq!(shares.len(), 3);
    assert_eq!(shares[0].get("owed_share").unwrap().as_str(), Some("15.00"));
    assert_eq!(shares[0].get("person_name").unwrap().as_str(), Some("Me"));
    assert_eq!(shares[1].get("person_name").unwrap().as_str(), Some("Eve"));
    assert_eq!(shares[1].get("owed_share").unwrap().as_str(), Some("10.00"));
    assert_eq!(shares[2].get("person_name").unwrap().as_str(), Some("User e6"));
}

#[test]
fn mismatch_resolution_actions_and_pulls() {
    assert_eq!(resolve_action("push"), Ok(ResolveAction::Push));
    assert_eq!(resolve_action("pull"), Ok(ResolveAction::Pull));
    assert_eq!(
        resolve_action("merge"),
        Err(ApiError::BadRequest("Invalid action: merge. Must be 'push' or 'pull'".to_string()))
    );
    let e = expense("30.00", "EUR", "", vec![user("e5", "", "", "0", "-12.50"), user("e6", "", "", "0", "?")]);
    let splits = vec![split(5, d(-1000, 2), "e5"), split(6, d(-500, 2), "e6"), split(7, d(-1, 0), "e7")];
    let (amount, split_amounts) = pull_updates(&e, &splits);
    assert_eq!(amount, Some(d(-3000, 2)));
    assert_eq!(split_amounts, vec![Some(d(1250, 2)), None, None]);
    assert_eq!(pull_updates(&expense("?", "EUR", "", vec![]), &[]).0, None);
}

#[test]
fn error_messages_read_as_displayed() {
    assert_eq!(SplitProviderError::NotFound("x".to_string()).message(), "Resource not found: x");
    assert_eq!(SplitProviderError::TokenExpired.message(), "Access token expired");
    assert_eq!(SplitProviderError::RateLimited(None).message(), "Rate limit exceeded. Retry after: None");
    assert_eq!(
        SplitProviderError::RateLimited(Some(at(NOON))).message(),
        "Rate limit exceeded. Retry after: Some(2024-03-10T12:00:00Z)"
    );
    assert_eq!(BankProviderError::TokenExpired.message(), "Token expired — user must re-authenticate");
    assert_eq!(BankProviderError::ApiError("x".to_string()).message(), "API error: x");
    assert_eq!(
        InvestmentProviderError::InvalidResponse("bad".to_string()).message(),
        "Invalid response from provider: bad"
    );
    assert_eq!(OAuthStateError::KeyNotConfigured.message(), "Encryption key not configured");
    assert_eq!(OAuthStateError::ValidationFailed("x".to_string()).message(), "Invalid state: x");
    assert_eq!(
        SplitProProvider::missing_expense("e1").message(),
        "Resource not found: Expense e1 not found"
    );
}

#[test]
fn bulk_and_bank_checks() {
    assert!(check_bulk_metadata(2, 2).is_ok());
    assert_eq!(
        check_bulk_metadata(1, 2),
        Err(ApiError::Validation(
            "bank_sync_metadata.external_transaction_ids length (1) must match transactions length (2)".to_string()
        ))
    );
    assert_eq!(
        bulk_validation_error(3, "title: too long"),
        ApiError::Validation("Transaction at index 3: title: too long".to_string())
    );
    assert_eq!(sync_window(None, None, at(NOON)), (at(NOON - 30 * 86400), at(NOON)));
    assert_eq!(sync_window(Some(at(1)), Some(at(2)), at(NOON)), (at(1), at(2)));
    assert_eq!(linked_account(&Some("acc".to_string()), "none"), Ok("acc".to_string()));
    assert_eq!(linked_account(&None, "none"), Err(ApiError::BadRequest("none".to_string())));
}

#[test]
fn splitwise_expense_listing_query() {
    let q = SplitwiseProvider::expenses_query(Some("4"), None, Some("2024-03-31"), None);
    assert_eq!(
        q,
        vec![
            ("friend_id".to_string(), "4".to_string()),
            ("dated_before".to_string(), "2024-03-31".to_string()),
            ("limit".to_string(), "50".to_string()),
        ]
    );
    assert_eq!(SplitwiseProvider::expenses_query(None, None, None, Some(7)), vec![("limit".to_string(), "7".to_string())]);
}

#[test]
fn splitpro_update_mutation_merges_with_the_expense() {
    let creds = obj(vec![
        ("base_url", s("https://sp.example")),
        ("session_token", s("tok")),
        ("splitpro_user_id", JsonValue::Number(JsonNumber::Int(7))),
    ]);
    let existing = ExternalExpenseDetail {
        external_expense_id: "e1".to_string(),
        description: "Dinner".to_string(),
        cost: "12.50".to_string(),
        currency_code: "EUR".to_string(),
        date: "2024-03-01T00:00:00.000Z".to_string(),
        users: vec![user("7", "", "", "12.50", "6.25"), user("8", "", "", "0.00", "6.25")],
        provider_type: "splitpro".to_string(),
    };
    let keep = UpdateExternalExpense { description: Some("Lunch".to_string()), cost: None, date: None, users: None, notes: None };
    let m = SplitProProvider::update_expense_mutation(&creds, "e1", &keep, &existing, &vec![], &vec![false, true])
        .unwrap()
        .unwrap();
    let json = m.body.get("json").unwrap();
    assert_eq!(json.get("expenseId").unwrap().as_str(), Some("e1"));
    assert_eq!(json.get("name").unwrap().as_str(), Some("Lunch"));
    assert_eq!(json.get("amount").unwrap().as_str(), Some("1250"));
    assert_eq!(json.get("paidBy").unwrap().as_i64(), Some(8));
    assert_eq!(json.get("currency").unwrap().as_str(), Some("EUR"));
    assert_eq!(json.get("expenseDate").unwrap().as_str(), Some("2024-03-01T00:00:00.000Z"));
    let parts = json.get("participants").unwrap().as_array().unwrap();
    assert_eq!(parts.len(), 2);
    assert_eq!(parts[0].get("amount").unwrap().as_str(), Some("625"));
    let replace = UpdateExternalExpense {
        description: None,
        cost: Some("20.00".to_string()),
        date: Some(Timestamp { seconds: NOON, nanos: 0 }),
        users: Some(vec![
            ExpenseUser { external_user_id: "7".to_string(), paid_share: "20.00".to_string(), owed_share: "10.00".to_string() },
            ExpenseUser { external_user_id: "8".to_string(), paid_share: "0.00".to_string(), owed_share: "10.00".to_string() },
        ]),
        notes: None,
    };
    let m = SplitProProvider::update_expense_mutation(&creds, "e1", &replace, &existing, &vec![true, false], &vec![false, false])
        .unwrap()
        .unwrap();
    let json = m.body.get("json").unwrap();
    assert_eq!(json.get("name").unwrap().as_str(), Some("Dinner"));
    assert_eq!(json.get("amount").unwrap().as_str(), Some("2000"));
    assert_eq!(json.get("paidBy").unwrap().as_i64(), Some(7));
    assert_eq!(json.get("expenseDate").unwrap().as_str(), Some("2024-03-10T12:00:00.000Z"));
    let parts = json.get("participants").unwrap().as_array().unwrap();
    assert_eq!(parts[0].get("amount").unwrap().as_str(), Some("1000"));
    assert_eq!(parts[1].get("amount").unwrap().as_str(), Some("-1000"));
    let bad_cost = UpdateExternalExpense { description: None, cost: Some("x".to_string()), date: None, users: None, notes: None };
    match SplitProProvider::update_expense_mutation(&creds, "e1", &bad_cost, &existing, &vec![], &vec![false, false]) {
        Some(Err(SplitProviderError::ApiError(m))) => assert!(m.starts_with("Failed to convert amount: ")),
        other => panic!("unexpected {:?}", other),
    }
}

#[test]
fn splitpro_answers_are_read() {
    let listing = obj(vec![(
        "result",
        obj(vec![(
            "data",
            obj(vec![(
                "json",
                JsonValue::Array(vec![
                    obj(vec![("id", s("a")), ("name", s("Taxi")), ("amount", s("1000")), ("paidBy", JsonValue::Number(JsonNumber::Int(7)))]),
                    obj(vec![("name", s("no id"))]),
                ]),
            )]),
        )]),
    )]);
    let expenses = SplitProProvider::expenses_from_answer(&listing).unwrap();
    assert_eq!(expenses.len(), 1);
    assert_eq!(expenses[0].external_expense_id, "a");
    assert_eq!(expenses[0].cost, "10.00");
    match SplitProProvider::expenses_from_answer(&obj(vec![])) {
        Err(SplitProviderError::InvalidResponse(m)) => assert_eq!(m, "Failed to decode tRPC response"),
        other => panic!("unexpected {:?}", other),
    }
    let not_list = obj(vec![("result", obj(vec![("data", obj(vec![("json", obj(vec![]))]))]))]);
    match SplitProProvider::expenses_from_answer(&not_list) {
        Err(SplitProviderError::InvalidResponse(m)) => assert_eq!(m, "Expected array of expenses"),
        other => panic!("unexpected {:?}", other),
    }
    let one = obj(vec![("result", obj(vec![("data", obj(vec![("json", obj(vec![("id", s("b"))]))]))]))]);
    assert_eq!(SplitProProvider::expense_from_answer(&one).unwrap().external_expense_id, "b");
    let null = obj(vec![("result", obj(vec![("data", obj(vec![("json", JsonValue::Null)]))]))]);
    assert!(SplitProProvider::expense_from_answer(&null).is_none());
}
