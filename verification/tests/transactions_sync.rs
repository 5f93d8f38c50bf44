use master_of_coin_backend::decimal::Decimal;
use master_of_coin_backend::errors::ApiError;
use master_of_coin_backend::json::{JsonMember, JsonNumber, JsonValue};
use master_of_coin_backend::models::{Timestamp, Transaction};
use master_of_coin_backend::services::drift_detection_service::{classify, LocalSplitRow, LocalTransactionGroup};
use master_of_coin_backend::services::split_provider::types::{ExternalExpenseDetail, ExternalExpenseUser};
use master_of_coin_backend::services::split_sync_service::{
    build_expense_users, compare_splits, debt_local_shares, extract_external_user_id, group_splits_by_provider,
    next_retry_count, payer_info, ExpenseParticipantInput, PersonSplitConfig, TransactionSplit,
};
use master_of_coin_backend::services::transaction_service::{
    check_access, check_restorable, compute_permanent_delete_at, get_retention_days, plan_split_upsert,
    signed_split_amount, SplitInput, SplitWrite, StoredSplit,
};
use master_of_coin_backend::services::transfer_service::{
    check_convertible, check_link_counterpart, check_transfer_accounts, is_convert_candidate, transfer_titles,
};

fn d(m: i128, s: i64) -> Decimal {
    Decimal { mantissa: m, scale: s }
}

fn txn(id: u128, account_id: u128, amount: Decimal) -> Transaction {
    Transaction {
        id,
        user_id: 1,
        account_id,
        category_id: None,
        title: "t".to_string(),
        amount,
        date: Timestamp { seconds: 0, nanos: 0 },
        notes: None,
        is_deleted: false,
        deleted_at: None,
    }
}

fn user(id: &str, paid: &str, owed: &str) -> ExternalExpenseUser {
    ExternalExpenseUser {
        external_user_id: id.to_string(),
        first_name: "F".to_string(),
        last_name: "L".to_string(),
        paid_share: paid.to_string(),
        owed_share: owed.to_string(),
    }
}

fn expense(id: &str, cost: &str, users: Vec<ExternalExpenseUser>) -> ExternalExpenseDetail {
    ExternalExpenseDetail {
        external_expense_id: id.to_string(),
        description: "Dinner".to_string(),
        cost: cost.to_string(),
        currency_code: "EUR".to_string(),
        date: "2024-03-10".to_string(),
        users,
        provider_type: String::new(),
    }
}

fn config(person_id: u128, provider: u128, ext: &str) -> PersonSplitConfig {
    PersonSplitConfig { id: person_id + 100, person_id, split_provider_id: provider, external_user_id: ext.to_string() }
}

#[test]
fn retention_and_purge_time() {
    assert_eq!(get_retention_days(None), 30);
    assert_eq!(get_retention_days(Some(7)), 7);
    let t = compute_permanent_delete_at(Timestamp { seconds: 1000, nanos: 5 }, 2);
    assert_eq!(t, Timestamp { seconds: 1000 + 2 * 86_400, nanos: 5 });
}

#[test]
fn split_signs_follow_the_transaction() {
    // an expense: they owe the user
    assert_eq!(signed_split_amount(&d(-5000, 2), &d(-2000, 2)), d(2000, 2));
    // income: the user owes them
    assert_eq!(signed_split_amount(&d(5000, 2), &d(2000, 2)), d(-2000, 2));
}

#[test]
fn access_checks() {
    assert_eq!(check_access(1, 1), Ok(()));
    assert_eq!(check_access(1, 2), Err(ApiError::Forbidden("Access denied".to_string())));
    assert_eq!(check_restorable(true), Ok(()));
    assert_eq!(check_restorable(false), Err(ApiError::BadRequest("Transaction is not in trash".to_string())));
}

#[test]
fn split_upsert_plan() {
    let existing = vec![
        StoredSplit { id: 10, person_id: 1, amount: d(100, 2) },
        StoredSplit { id: 11, person_id: 2, amount: d(200, 2) },
    ];
    let inputs = vec![SplitInput { person_id: 2, amount: d(300, 2) }, SplitInput { person_id: 3, amount: d(400, 2) }];
    let plan = plan_split_upsert(&inputs, &existing, &d(-1000, 2)).unwrap();
    assert_eq!(plan.writes, vec![
        SplitWrite::Update { split_id: 11, amount: d(300, 2) },
        SplitWrite::Create { person_id: 3, amount: d(400, 2) },
    ]);
    assert_eq!(plan.deletes, vec![10]);
    let twice = vec![SplitInput { person_id: 2, amount: d(1, 0) }, SplitInput { person_id: 2, amount: d(2, 0) }];
    assert_eq!(
        plan_split_upsert(&twice, &existing, &d(-1000, 2)).err(),
        Some(ApiError::Validation("Duplicate person_id in splits".to_string()))
    );
}

#[test]
fn transfers() {
    let (a, b) = transfer_titles(&None, "Checking", "Savings");
    assert_eq!(a, "Transfer to Savings");
    assert_eq!(b, "Transfer from Checking");
    let (a, b) = transfer_titles(&Some("Rent".to_string()), "x", "y");
    assert_eq!((a.as_str(), b.as_str()), ("Rent", "Rent"));
    assert_eq!(
        check_transfer_accounts(5, 5),
        Err(ApiError::Validation("Source and destination accounts must be different".to_string()))
    );
    let original = txn(1, 7, d(-5000, 2));
    assert_eq!(check_convertible(&original, 1, false, 0, 8), Ok(true));
    assert_eq!(
        check_convertible(&original, 1, true, 0, 8),
        Err(ApiError::Validation("Transaction is already part of a transfer".to_string()))
    );
    assert_eq!(
        check_convertible(&original, 1, false, 0, 7),
        Err(ApiError::Validation("Counterpart account must be different from the transaction's account".to_string()))
    );
    let counterpart = txn(2, 8, d(5000, 2));
    assert_eq!(check_link_counterpart(&original, true, &counterpart, 1, 8, false, 0), Ok((1, 2)));
    let same_sign = txn(3, 8, d(-100, 2));
    assert_eq!(
        check_link_counterpart(&original, true, &same_sign, 1, 8, false, 0),
        Err(ApiError::Validation("Counterpart transaction must have the opposite sign to the original".to_string()))
    );
    assert!(is_convert_candidate(&original, &counterpart, false, 0));
    assert!(!is_convert_candidate(&original, &same_sign, false, 0));
}

#[test]
fn splits_group_by_provider() {
    let s = |id: u128, person: u128| TransactionSplit { id, transaction_id: 9, person_id: person, amount: d(100, 2) };
    let grouped = group_splits_by_provider(vec![
        (s(1, 1), Some(config(1, 50, "u1"))),
        (s(2, 2), None),
        (s(3, 3), Some(config(3, 60, "u3"))),
        (s(4, 4), Some(config(4, 50, "u4"))),
    ]);
    assert_eq!(grouped.len(), 2);
    assert_eq!(grouped[0].0, 50);
    assert_eq!(grouped[0].1.iter().map(|(x, _)| x.id).collect::<Vec<_>>(), vec![1, 4]);
    assert_eq!(grouped[1].0, 60);
    assert_eq!(grouped[1].1.len(), 1);
}

#[test]
fn expense_users_and_comparison() {
    let splits = vec![(
        TransactionSplit { id: 1, transaction_id: 9, person_id: 2, amount: d(3000, 2) },
        config(2, 50, "u2"),
    )];
    let users = build_expense_users(&d(-10000, 2), &splits, "me");
    assert_eq!(users.len(), 2);
    assert_eq!(
        (users[0].external_user_id.as_str(), users[0].paid_share.as_str(), users[0].owed_share.as_str()),
        ("me", "100.00", "70.00")
    );
    assert_eq!((users[1].paid_share.as_str(), users[1].owed_share.as_str()), ("0.00", "30.00"));
    let matching = expense("e1", "100.00", vec![user("me", "100.00", "70.0"), user("u2", "0.00", "30.00")]);
    assert!(compare_splits(&d(-10000, 2), &splits, &matching));
    let differing = expense("e1", "100.00", vec![user("me", "100.00", "60.00"), user("u2", "0.00", "40.00")]);
    assert!(!compare_splits(&d(-10000, 2), &splits, &differing));
}

#[test]
fn credentials_name_the_current_user() {
    let creds = JsonValue::Object(vec![JsonMember {
        key: "splitwise_user_id".to_string(),
        value: JsonValue::Number(JsonNumber::Int(42)),
    }]);
    assert_eq!(extract_external_user_id(&creds).as_deref(), Some("42"));
    assert_eq!(payer_info(&creds), ("42".to_string(), "You".to_string()));
    assert_eq!(extract_external_user_id(&JsonValue::Null), None);
    assert_eq!(payer_info(&JsonValue::Null).0, "unknown");
}

#[test]
fn retry_counts_are_capped() {
    assert_eq!(next_retry_count(0), Ok(1));
    assert_eq!(next_retry_count(5), Err(ApiError::BadRequest("Maximum retry count exceeded".to_string())));
}

#[test]
fn debt_shares_as_listed_locally() {
    let shares = debt_local_shares(&vec![ExpenseParticipantInput {
        name: "Ana".to_string(),
        external_user_id: None,
        paid_share: "0.00".to_string(),
        owed_share: "12.50".to_string(),
    }]);
    assert_eq!(shares.len(), 1);
    assert_eq!(shares[0].get("external_user_id").unwrap().as_str(), Some(""));
    assert_eq!(shares[0].get("person_name").unwrap().as_str(), Some("Ana"));
    assert_eq!(shares[0].get("owed_share").unwrap().as_str(), Some("12.50"));
}

#[test]
fn drift_report_counts_every_local_transaction() {
    let linked = LocalTransactionGroup {
        transaction_id: 1,
        transaction_title: "Dinner".to_string(),
        transaction_amount: d(-10000, 2),
        transaction_date: Timestamp { seconds: 0, nanos: 0 },
        splits: vec![LocalSplitRow {
            split_id: 1,
            person_name: "Ana".to_string(),
            split_amount: d(5000, 2),
            external_user_id: "u2".to_string(),
            provider_id: 50,
            external_expense_id: Some("e1".to_string()),
            sync_status: Some("synced".to_string()),
        }],
    };
    let unlinked = LocalTransactionGroup {
        transaction_id: 2,
        transaction_title: "Taxi".to_string(),
        transaction_amount: d(-2000, 2),
        transaction_date: Timestamp { seconds: 0, nanos: 0 },
        splits: vec![LocalSplitRow {
            split_id: 2,
            person_name: "Ana".to_string(),
            split_amount: d(1000, 2),
            external_user_id: "u2".to_string(),
            provider_id: 50,
            external_expense_id: None,
            sync_status: None,
        }],
    };
    let externals = vec![
        expense("e1", "100.00", vec![user("me", "100.00", "50.00"), user("u2", "0.00", "50.00")]),
        expense("e2", "30.00", vec![user("me", "30.00", "15.00"), user("u9", "0.00", "15.00")]),
    ];
    let report = classify(&[linked, unlinked], &externals, &vec![("u2".to_string(), "Ana".to_string())], Some("me"));
    assert_eq!(report.summary.total_local, 2);
    assert_eq!(report.summary.total_external, 2);
    assert_eq!(report.summary.synced, 1);
    assert_eq!(report.summary.drifted, 0);
    assert_eq!(report.summary.missing_on_external, 1);
    assert_eq!(report.summary.missing_on_local, 1);
    assert_eq!(report.missing_on_local[0].external_expense_id, "e2");
    assert_eq!(report.missing_on_local[0].unmapped_users.len(), 1);
}
