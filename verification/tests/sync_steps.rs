use master_of_coin_backend::decimal::Decimal;
use master_of_coin_backend::errors::ApiError;
use master_of_coin_backend::json::{JsonMember, JsonValue};
use master_of_coin_backend::models::{Reply, Timestamp};
use master_of_coin_backend::services::debt_transaction_service::{create_debt_step, DebtCreateStep};
use master_of_coin_backend::services::drift_detection_service::{
    amounts_fit, classify_in_range, LocalSplitRow, LocalTransactionGroup,
};
use master_of_coin_backend::services::split_provider::splitwise::{ExpenseFetchStep, HttpAnswer, SplitwiseProvider};
use master_of_coin_backend::services::split_provider::types::{
    ExpenseUser, ExternalExpenseDetail, ExternalExpenseResult, ExternalExpenseUser, SplitProviderError,
};
use master_of_coin_backend::services::split_sync_flow::{
    create_group_step, debt_sync_step, expense_cost, group_create_request, group_update_request, sync_start_error,
    sync_step, update_group_step, CreateGroupStep, GroupUpdateStep, RecordMark, SyncStep,
};
use master_of_coin_backend::services::split_sync_service::{
    ExpenseParticipantInput, PersonSplitConfig, SplitSyncRecord, SyncEnd, SyncStatus, TransactionSplit,
};
use master_of_coin_backend::services::transfer_service::{counterpart_source, transfer_amount_source, AmountSource};
use master_of_coin_backend::types::CurrencyCode;

fn d(m: i128, s: i64) -> Decimal {
    Decimal { mantissa: m, scale: s }
}

fn user(id: &str, paid: &str, owed: &str) -> ExternalExpenseUser {
    ExternalExpenseUser {
        external_user_id: id.to_string(),
        first_name: "F".to_string(),
        last_name: "L".to_string(),
        paid_share: paid.to_string(),
        owed_share: owed.to_string(),
    }
}

fn expense(id: &str, users: Vec<ExternalExpenseUser>) -> ExternalExpenseDetail {
    ExternalExpenseDetail {
        external_expense_id: id.to_string(),
        description: "Dinner".to_string(),
        cost: "100.00".to_string(),
        currency_code: "EUR".to_string(),
        date: "2024-03-10".to_string(),
        users,
        provider_type: String::new(),
    }
}

fn group() -> Vec<(TransactionSplit, PersonSplitConfig)> {
    vec![(
        TransactionSplit { id: 1, transaction_id: 9, person_id: 2, amount: d(3000, 2) },
        PersonSplitConfig { id: 102, person_id: 2, split_provider_id: 50, external_user_id: "u2".to_string() },
    )]
}

fn matching(id: &str) -> ExternalExpenseDetail {
    expense(id, vec![user("me", "100.00", "70.00"), user("u2", "0.00", "30.00")])
}

fn differing(id: &str) -> ExternalExpenseDetail {
    expense(id, vec![user("me", "100.00", "60.00"), user("u2", "0.00", "40.00")])
}

fn record(ext: Option<&str>) -> SplitSyncRecord {
    SplitSyncRecord {
        id: 7,
        transaction_split_id: 1,
        split_provider_id: 50,
        external_expense_id: ext.map(|s| s.to_string()),
        sync_status: "synced".to_string(),
        last_error: None,
        retry_count: 2,
    }
}

fn created(id: &str) -> ExternalExpenseResult {
    ExternalExpenseResult { external_expense_id: id.to_string(), external_url: None }
}

#[test]
fn sync_refuses_before_any_call() {
    assert_eq!(
        sync_start_error(0, 0),
        Some(ApiError::BadRequest("Transaction has no splits to sync".to_string()))
    );
    assert_eq!(
        sync_start_error(2, 0),
        Some(ApiError::BadRequest("No splits have a configured split provider".to_string()))
    );
    assert_eq!(sync_start_error(2, 1), None);
}

#[test]
fn sync_of_a_linked_group() {
    let amount = d(-10000, 2);
    let linked = Some("e1".to_string());
    let none: Reply<Vec<ExternalExpenseDetail>> = Reply::Pending;
    assert_eq!(sync_step(&amount, &group(), &linked, &Reply::Pending, &none), SyncStep::FetchLinked("e1".to_string()));
    assert_eq!(
        sync_step(&amount, &group(), &linked, &Reply::Got(Some(matching("e1"))), &none),
        SyncStep::MarkSynced("e1".to_string(), SyncEnd::Synced)
    );
    assert_eq!(
        sync_step(&amount, &group(), &linked, &Reply::Got(Some(differing("e1"))), &none),
        SyncStep::ReportMismatch("e1".to_string())
    );
    // the linked expense is gone: search
    assert_eq!(sync_step(&amount, &group(), &linked, &Reply::Got(None), &none), SyncStep::Search);
}

#[test]
fn sync_after_a_search() {
    let amount = d(-10000, 2);
    let pending: Reply<Option<ExternalExpenseDetail>> = Reply::Pending;
    assert_eq!(sync_step(&amount, &group(), &None, &pending, &Reply::Pending), SyncStep::Search);
    assert_eq!(sync_step(&amount, &group(), &None, &pending, &Reply::Got(vec![])), SyncStep::Create);
    assert_eq!(
        sync_step(&amount, &group(), &None, &pending, &Reply::Got(vec![differing("a"), matching("b")])),
        SyncStep::MarkSynced("b".to_string(), SyncEnd::Linked)
    );
    assert_eq!(
        sync_step(&amount, &group(), &None, &pending, &Reply::Got(vec![differing("a"), differing("c")])),
        SyncStep::ReportMismatch("a".to_string())
    );
}

#[test]
fn debt_sync_links_or_creates() {
    let participants = Some(vec![
        ExpenseParticipantInput {
            name: "Me".to_string(),
            external_user_id: Some("me".to_string()),
            paid_share: "0.00".to_string(),
            owed_share: "30.00".to_string(),
        },
        ExpenseParticipantInput {
            name: "Ana".to_string(),
            external_user_id: Some("u2".to_string()),
            paid_share: "100.00".to_string(),
            owed_share: "70.00".to_string(),
        },
    ]);
    let total = Some("100.00".to_string());
    let theirs = expense("x", vec![user("me", "0.00", "30.00"), user("u2", "100.00", "70.00")]);
    let other = expense("y", vec![user("me", "0.00", "50.00"), user("u2", "100.00", "50.00")]);
    let pending: Reply<Option<ExternalExpenseDetail>> = Reply::Pending;
    assert_eq!(
        debt_sync_step(&participants, &total, &None, &pending, &Reply::Got(vec![other.clone(), theirs.clone()])),
        SyncStep::MarkSynced("x".to_string(), SyncEnd::Linked)
    );
    assert_eq!(debt_sync_step(&participants, &total, &None, &pending, &Reply::Got(vec![other.clone()])), SyncStep::Create);
    let linked = Some("x".to_string());
    assert_eq!(
        debt_sync_step(&participants, &total, &linked, &Reply::Got(Some(theirs)), &Reply::Pending),
        SyncStep::MarkSynced("x".to_string(), SyncEnd::Synced)
    );
    assert_eq!(
        debt_sync_step(&participants, &total, &linked, &Reply::Got(Some(other)), &Reply::Pending),
        SyncStep::ReportMismatch("x".to_string())
    );
}

#[test]
fn group_update_steps() {
    let none: Reply<Result<ExternalExpenseResult, SplitProviderError>> = Reply::Pending;
    assert_eq!(
        update_group_step(&[], &Reply::Pending, &none),
        GroupUpdateStep::Refuse(ApiError::BadRequest("No splits provided for update".to_string()))
    );
    assert_eq!(update_group_step(&group(), &Reply::Pending, &none), GroupUpdateStep::FindRecord(1));
    assert_eq!(
        update_group_step(&group(), &Reply::Got(None), &none),
        GroupUpdateStep::Refuse(ApiError::NotFound("Sync record not found".to_string()))
    );
    assert_eq!(
        update_group_step(&group(), &Reply::Got(Some(record(None))), &none),
        GroupUpdateStep::Refuse(ApiError::BadRequest("No external expense ID found".to_string()))
    );
    let found = Reply::Got(Some(record(Some("e9"))));
    assert_eq!(update_group_step(&group(), &found, &none), GroupUpdateStep::UpdateExpense("e9".to_string()));
    assert_eq!(
        update_group_step(&group(), &found, &Reply::Got(Ok(created("e9")))),
        GroupUpdateStep::Finish(None, Ok(()))
    );
    assert_eq!(
        update_group_step(&group(), &found, &Reply::Got(Err(SplitProviderError::NetworkError("down".to_string())))),
        GroupUpdateStep::Finish(
            Some("Network error: down".to_string()),
            Err(ApiError::External("Failed to update expense: Network error: down".to_string()))
        )
    );
}

#[test]
fn group_create_steps() {
    assert_eq!(create_group_step(&Reply::Pending, 3), CreateGroupStep::CreateExpense);
    assert_eq!(
        create_group_step(&Reply::Got(Ok(created("n1"))), 3),
        CreateGroupStep::Finish(
            RecordMark {
                external_expense_id: Some("n1".to_string()),
                status: SyncStatus::Synced,
                last_error: None,
                retry_count: 3
            },
            Ok(())
        )
    );
    assert_eq!(
        create_group_step(&Reply::Got(Err(SplitProviderError::TokenExpired)), 0),
        CreateGroupStep::Finish(
            RecordMark {
                external_expense_id: None,
                status: SyncStatus::Failed,
                last_error: Some("Access token expired".to_string()),
                retry_count: 0
            },
            Err(ApiError::External("Failed to create expense: Access token expired".to_string()))
        )
    );
}

#[test]
fn expense_requests_carry_the_cost() {
    assert_eq!(expense_cost(&d(-10000, 2), None), "100.00");
    assert_eq!(expense_cost(&d(-3000, 2), Some(&d(15, 0))), "15.00");
    let users = vec![ExpenseUser { external_user_id: "me".to_string(), paid_share: "100.00".to_string(), owed_share: "70.00".to_string() }];
    let date = Timestamp { seconds: 86_400, nanos: 0 };
    let r = group_create_request("Dinner".to_string(), None, date, CurrencyCode::Usd, &d(-10000, 2), None, users.clone());
    assert_eq!((r.description.as_str(), r.cost.as_str(), r.currency_code.as_str()), ("Dinner", "100.00", "USD"));
    assert_eq!((r.date, r.group_id, r.users.len()), (date, None, 1));
    let u = group_update_request("Dinner".to_string(), Some("n".to_string()), date, &d(-10000, 2), None, users);
    assert_eq!((u.description, u.cost, u.notes), (Some("Dinner".to_string()), Some("100.00".to_string()), Some("n".to_string())));
}

fn creds(token: Option<&str>) -> JsonValue {
    let mut m = Vec::new();
    if let Some(t) = token {
        m.push(JsonMember { key: "access_token".to_string(), value: JsonValue::String(t.to_string()) });
    }
    JsonValue::Object(m)
}

fn answer(status: u16, text: &str, body: &str) -> Reply<Result<HttpAnswer, String>> {
    Reply::Got(Ok(HttpAnswer { status, status_text: text.to_string(), body: body.to_string() }))
}

#[test]
fn expense_fetch_steps() {
    match SplitwiseProvider::get_expense_step(&creds(None), "5", &Reply::Pending) {
        ExpenseFetchStep::Done(Err(SplitProviderError::ConfigurationError(m))) => {
            assert_eq!(m, "Missing access_token in credentials")
        },
        other => panic!("{:?}", other),
    }
    match SplitwiseProvider::get_expense_step(&creds(Some("tok")), "5", &Reply::Pending) {
        ExpenseFetchStep::Request(url, token) => {
            assert_eq!(url, "https://secure.splitwise.com/api/v3.0/get_expense/5");
            assert_eq!(token, "tok");
        },
        other => panic!("{:?}", other),
    }
    let c = creds(Some("tok"));
    assert!(matches!(
        SplitwiseProvider::get_expense_step(&c, "5", &Reply::Got(Err("reset".to_string()))),
        ExpenseFetchStep::Done(Err(SplitProviderError::NetworkError(_)))
    ));
    assert!(matches!(
        SplitwiseProvider::get_expense_step(&c, "5", &answer(404, "404 Not Found", "")),
        ExpenseFetchStep::Done(Ok(None))
    ));
    match SplitwiseProvider::get_expense_step(&c, "5", &answer(500, "500 Internal Server Error", "oops")) {
        ExpenseFetchStep::Done(Err(SplitProviderError::ApiError(m))) => assert_eq!(m, "HTTP 500 Internal Server Error: oops"),
        other => panic!("{:?}", other),
    }
    assert!(matches!(
        SplitwiseProvider::get_expense_step(&c, "5", &answer(401, "401 Unauthorized", "no")),
        ExpenseFetchStep::Done(Err(SplitProviderError::AuthenticationFailed(_)))
    ));
    assert!(matches!(
        SplitwiseProvider::get_expense_step(&c, "5", &answer(200, "200 OK", "not json")),
        ExpenseFetchStep::Done(Err(SplitProviderError::InvalidResponse(_)))
    ));
    match SplitwiseProvider::get_expense_step(&c, "5", &answer(200, "200 OK", "{}")) {
        ExpenseFetchStep::Done(Err(SplitProviderError::InvalidResponse(m))) => assert_eq!(m, "Missing 'expense' field"),
        other => panic!("{:?}", other),
    }
    assert!(matches!(
        SplitwiseProvider::get_expense_step(&c, "5", &answer(200, "200 OK", r#"{"expense":{"deleted_at":"2024-01-01"}}"#)),
        ExpenseFetchStep::Done(Ok(None))
    ));
    let body = r#"{"expense":{"id":5,"cost":"12.50","users":[{"user":{"id":7,"first_name":"A"},"owed_share":"12.50"},{"paid_share":"1"}]}}"#;
    match SplitwiseProvider::get_expense_step(&c, "5", &answer(200, "200 OK", body)) {
        ExpenseFetchStep::Done(Ok(Some(e))) => {
            assert_eq!((e.external_expense_id.as_str(), e.cost.as_str(), e.currency_code.as_str()), ("5", "12.50", "USD"));
            assert_eq!(e.users.len(), 1);
            assert_eq!((e.users[0].external_user_id.as_str(), e.users[0].paid_share.as_str()), ("7", "0.00"));
        },
        other => panic!("{:?}", other),
    }
}

#[test]
fn debt_creation_steps() {
    assert_eq!(
        create_debt_step(1, "0", None, None, &Reply::Pending),
        DebtCreateStep::Refuse(ApiError::Validation("Transaction amount cannot be zero".to_string()))
    );
    assert_eq!(create_debt_step(1, "-12.5", None, None, &Reply::Pending), DebtCreateStep::CheckOwners);
    assert_eq!(
        create_debt_step(1, "-12.5", None, None, &Reply::Got((2, None))),
        DebtCreateStep::Refuse(ApiError::Unauthorized("Person does not belong to user".to_string()))
    );
    assert_eq!(
        create_debt_step(1, "-12.5", None, None, &Reply::Got((1, Some(3)))),
        DebtCreateStep::Refuse(ApiError::Unauthorized("Category does not belong to user".to_string()))
    );
    assert_eq!(
        create_debt_step(1, "NaN", None, None, &Reply::Got((1, None))),
        DebtCreateStep::Refuse(ApiError::Validation("Invalid amount".to_string()))
    );
    // the transaction and its split carry the same signed amount; the total
    // cost defaults to its absolute value
    assert_eq!(
        create_debt_step(1, "-12.5", None, None, &Reply::Got((1, Some(1)))),
        DebtCreateStep::Create(CurrencyCode::Eur, d(-125, 1), d(125, 1))
    );
    assert_eq!(
        create_debt_step(1, "-12.5", Some(CurrencyCode::Usd), Some("40"), &Reply::Got((1, None))),
        DebtCreateStep::Create(CurrencyCode::Usd, d(-125, 1), d(40, 0))
    );
}

fn split_row(amount: Decimal) -> LocalSplitRow {
    LocalSplitRow {
        split_id: 1,
        person_name: "Ana".to_string(),
        split_amount: amount,
        external_user_id: "u2".to_string(),
        provider_id: 50,
        external_expense_id: None,
        sync_status: None,
    }
}

fn local(amount: Decimal, splits: Vec<LocalSplitRow>) -> LocalTransactionGroup {
    LocalTransactionGroup {
        transaction_id: 1,
        transaction_title: "t".to_string(),
        transaction_amount: amount,
        transaction_date: Timestamp { seconds: 0, nanos: 0 },
        splits,
    }
}

#[test]
fn amounts_out_of_reach_are_reported() {
    let ok = local(d(-10000, 2), vec![split_row(d(3000, 2))]);
    assert!(amounts_fit(&ok));
    let huge = local(d(i128::MIN, 0), vec![]);
    assert!(!amounts_fit(&huge));
    let wide = local(d(1, 0), vec![split_row(d(i128::MAX, 0)), split_row(d(i128::MAX, 0))]);
    assert!(!amounts_fit(&wide));
    assert!(classify_in_range(&[huge], &[], &vec![], None).is_none());
    let report = classify_in_range(&[ok], &[], &vec![], None).unwrap();
    assert_eq!((report.summary.total_local, report.summary.missing_on_external), (1, 1));
}

#[test]
fn transfer_amount_sources() {
    assert_eq!(transfer_amount_source(true, false, false), Ok(AmountSource::SameCurrency));
    assert_eq!(transfer_amount_source(false, true, true), Ok(AmountSource::GivenAmount));
    assert_eq!(transfer_amount_source(false, false, true), Ok(AmountSource::GivenRate));
    assert_eq!(
        transfer_amount_source(false, false, false),
        Err(ApiError::Validation("Cross-currency transfers require either to_amount or exchange_rate".to_string()))
    );
    assert_eq!(counterpart_source(true, true, false), Ok(AmountSource::SameCurrency));
    assert_eq!(
        counterpart_source(false, false, false),
        Err(ApiError::Validation(
            "Cross-currency conversion requires either counterpart_amount or exchange_rate".to_string()
        ))
    );
}
