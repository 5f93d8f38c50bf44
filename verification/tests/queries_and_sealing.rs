use master_of_coin_backend::json::{JsonMember, JsonNumber, JsonValue};
use master_of_coin_backend::services::drift_detection_service::merge_expense_page;
use master_of_coin_backend::services::split_provider::types::ExternalExpenseDetail;
use master_of_coin_backend::services::split_sync_service::{
    group_update_record, linked_step, sync_answer, LinkedStep, SyncEnd, SyncStatus,
};
use master_of_coin_backend::utils::cron::{compute_next_run, compute_upcoming_runs, validate_min_frequency};
use master_of_coin_backend::utils::encryption::{decrypt_credentials, encrypt_credentials, EncryptionError};
use master_of_coin_backend::utils::oauth_state::{create_signed_state, verify_signed_state};

const KEY: &str = "AAECAwQFBgcICQoLDA0ODxAREhMUFRYXGBkaGxwdHh8=";

fn expense(id: &str) -> ExternalExpenseDetail {
    ExternalExpenseDetail {
        external_expense_id: id.to_string(),
        description: "x".to_string(),
        cost: "1.00".to_string(),
        currency_code: "EUR".to_string(),
        date: "2024-03-01".to_string(),
        users: vec![],
        provider_type: "splitwise".to_string(),
    }
}

#[test]
fn expense_pages_merge_without_repeats() {
    let seen = vec!["a".to_string()];
    let page = vec![expense("a"), expense("b"), expense("b"), expense("c"), expense("d")];
    let (kept, done) = merge_expense_page(&seen, page, &vec![true, true, true, false, true], 200);
    let ids: Vec<&str> = kept.iter().map(|e| e.external_expense_id.as_str()).collect();
    assert_eq!(ids, vec!["b", "d"]);
    assert!(done);
    let (kept, done) = merge_expense_page(&vec![], vec![expense("e"), expense("f")], &vec![true, true], 2);
    assert_eq!(kept.len(), 2);
    assert!(!done);
}

#[test]
fn credentials_seal_and_open_back() {
    let creds = JsonValue::Object(vec![
        JsonMember { key: "access_token".to_string(), value: JsonValue::String("abc".to_string()) },
        JsonMember { key: "n".to_string(), value: JsonValue::Number(JsonNumber::Int(3)) },
    ]);
    let sealed = encrypt_credentials(Some(KEY), &creds).unwrap();
    let opened = decrypt_credentials(Some(KEY), &sealed).unwrap();
    assert_eq!(opened.get("access_token").unwrap().as_str(), Some("abc"));
    assert_eq!(opened.get("n").unwrap().as_i64(), Some(3));
    assert!(matches!(encrypt_credentials(None, &creds), Err(EncryptionError::KeyNotConfigured)));
}

#[test]
fn oauth_states_are_made_under_a_valid_key() {
    let state = create_signed_state(Some(KEY), 42).unwrap();
    assert_eq!(verify_signed_state(Some(KEY), &state).unwrap(), 42);
}

#[test]
fn schedules_from_now() {
    assert!(validate_min_frequency("0 * * * *").is_ok());
    assert!(validate_min_frequency("0 0 * * *").is_ok());
    assert!(validate_min_frequency("*/5 * * * *").is_err());
    assert!(validate_min_frequency("nope").is_err());
    assert!(compute_next_run("0 0 * * *").is_ok());
    assert_eq!(compute_upcoming_runs("0 0 * * *", 3).unwrap().len(), 3);
}

#[test]
fn sync_steps_and_answers() {
    let linked = Some("e1".to_string());
    assert_eq!(linked_step(&None, None), LinkedStep::Search);
    assert_eq!(linked_step(&linked, None), LinkedStep::Search);
    assert_eq!(linked_step(&linked, Some(true)), LinkedStep::AlreadySynced);
    assert_eq!(linked_step(&linked, Some(false)), LinkedStep::ReportMismatch);
    let a = sync_answer(SyncEnd::Linked, true, "e1");
    assert_eq!(a.get("status").unwrap().as_str(), Some("linked"));
    assert_eq!(a.get("external_expense_id").unwrap().as_str(), Some("e1"));
    assert_eq!(
        a.get("message").unwrap().as_str(),
        Some("Existing Splitwise expense found and linked (friend as payer)")
    );
    let c = sync_answer(SyncEnd::Created, false, "ignored");
    assert_eq!(c.get("status").unwrap().as_str(), Some("created"));
    assert!(c.get("external_expense_id").is_none());
    let ok = group_update_record(None, 2);
    assert_eq!((ok.status, ok.last_error, ok.retry_count), (SyncStatus::Synced, None, None));
    let failed = group_update_record(Some("boom".to_string()), 2);
    assert_eq!((failed.status, failed.last_error, failed.retry_count), (SyncStatus::Failed, Some("boom".to_string()), Some(3)));
}
