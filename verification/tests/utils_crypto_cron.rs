use master_of_coin_backend::json::{JsonMember, JsonValue};
use master_of_coin_backend::models::Timestamp;
use master_of_coin_backend::services::bulk_sync_service::pull_after_import;
use master_of_coin_backend::services::investment_provider::trading212::Trading212Provider;
use master_of_coin_backend::services::portfolio_sync_service::check_filtered_provider;
use master_of_coin_backend::utils::cron::{
    check_min_frequency, compute_next_run_after, compute_upcoming_runs_after, describe_cron, parse_cron, to_seven_field,
    validate_cron,
};
use master_of_coin_backend::utils::encryption::{
    decrypt_credentials, encryption_key, open_bytes, seal_bytes, EncryptionError,
};
use master_of_coin_backend::utils::oauth_state::{
    create_signed_state, verify_signed_state, OAuthStateError,
};

const KEY: &str = "AAECAwQFBgcICQoLDA0ODxAREhMUFRYXGBkaGxwdHh8=";
const OTHER_KEY: &str = "ICEiIyQlJicoKSorLC0uLzAxMjM0NTY3ODk6Ozw9Pj8=";

#[test]
fn base64_text_forms() {
    // "hello:world" encoded, then a key that decodes to three bytes
    assert_eq!(Trading212Provider::build_auth_header("hello", "world"), "Basic aGVsbG86d29ybGQ=");
    match encryption_key(Some("AAAA")) {
        Err(EncryptionError::InvalidKeyFormat(m)) => assert_eq!(m, "Key must be 32 bytes, got 3"),
        other => panic!("unexpected {:?}", other),
    }
    assert!(matches!(encryption_key(Some("***")), Err(EncryptionError::InvalidKeyFormat(_))));
}

#[test]
fn encryption_key_errors() {
    assert!(matches!(encryption_key(None), Err(EncryptionError::KeyNotConfigured)));
    match encryption_key(Some("AAAA")) {
        Err(EncryptionError::InvalidKeyFormat(m)) => assert_eq!(m, "Key must be 32 bytes, got 3"),
        other => panic!("unexpected {:?}", other),
    }
    assert!(matches!(encryption_key(Some("not base64!")), Err(EncryptionError::InvalidKeyFormat(_))));
    assert_eq!(encryption_key(Some(KEY)).unwrap().len(), 32);
}

#[test]
fn sealed_bytes_open_to_the_plaintext() {
    let sealed = seal_bytes(Some(KEY), b"{\"access_token\":\"abc\"}").unwrap();
    assert_eq!(open_bytes(Some(KEY), &sealed).unwrap(), b"{\"access_token\":\"abc\"}".to_vec());
    // sealing twice uses fresh nonces
    let again = seal_bytes(Some(KEY), b"{\"access_token\":\"abc\"}").unwrap();
    assert_ne!(sealed, again);
    // another key does not open it
    assert!(matches!(open_bytes(Some(OTHER_KEY), &sealed), Err(EncryptionError::DecryptionFailed(_))));
}

#[test]
fn sealed_credentials_read_as_json() {
    let sealed = seal_bytes(Some(KEY), b"{\"access_token\":\"abc\",\"n\":3}").unwrap();
    let creds = decrypt_credentials(Some(KEY), &sealed).unwrap();
    assert_eq!(creds.get("access_token").unwrap().as_str(), Some("abc"));
    assert_eq!(creds.get("n").unwrap().as_i64(), Some(3));
    let not_json = seal_bytes(Some(KEY), b"not json").unwrap();
    assert!(matches!(decrypt_credentials(Some(KEY), &not_json), Err(EncryptionError::JsonError(_))));
    match open_bytes(Some(KEY), "AAAA") {
        Err(EncryptionError::DecryptionFailed(m)) => assert_eq!(m, "Encrypted data too short"),
        other => panic!("unexpected {:?}", other),
    }
}

#[test]
fn oauth_state_roundtrip() {
    let id = 0x1234_5678_9abc_def0_0fed_cba9_8765_4321u128;
    let state = create_signed_state(Some(KEY), id).unwrap();
    assert_eq!(verify_signed_state(Some(KEY), &state).unwrap(), id);
    assert!(matches!(verify_signed_state(Some(OTHER_KEY), &state), Err(OAuthStateError::ValidationFailed(_))));
    match verify_signed_state(Some(KEY), "AAAA") {
        Err(OAuthStateError::ValidationFailed(m)) => assert_eq!(m, "State too short"),
        other => panic!("unexpected {:?}", other),
    }
    assert!(matches!(create_signed_state(None, id), Err(OAuthStateError::KeyNotConfigured)));
}

#[test]
fn uuid_text_reads_back() {
    let id = 0x550e8400_e29b_41d4_a716_446655440000u128;
    let text = "550e8400-e29b-41d4-a716-446655440000";
    assert_eq!(
        check_filtered_provider(None, 1, id),
        Err(format!("No investment provider configured for account {}", text))
    );
    let answer = |t: &str| {
        JsonValue::Object(vec![JsonMember { key: "transaction_id".to_string(), value: JsonValue::String(t.to_string()) }])
    };
    assert_eq!(pull_after_import("e1", None, &answer(text)).transaction_id, Some(id));
    assert_eq!(pull_after_import("e1", None, &answer("nope")).transaction_id, None);
}

#[test]
fn cron_forms_and_descriptions() {
    assert_eq!(to_seven_field("0 * * * *"), "0 0 * * * * *");
    assert!(validate_cron("0 * * * *").is_ok());
    assert!(parse_cron("0 * * * *").is_ok());
    match validate_cron("not a cron") {
        Err(m) => assert!(m.starts_with("Invalid cron expression 'not a cron': ")),
        Ok(()) => panic!("accepted"),
    }
    assert_eq!(describe_cron(" 0 * * * * "), "Every hour");
    assert_eq!(describe_cron("0 0 1 * *"), "Monthly on the 1st at 00:00");
    assert_eq!(describe_cron("*/5 * * * *"), "*/5 * * * *");
}

#[test]
fn cron_runs_after_an_instant() {
    // 2024-01-01T00:30:00Z
    let after = Timestamp { seconds: 1_704_069_000, nanos: 0 };
    assert_eq!(
        compute_next_run_after("0 * * * *", after),
        Ok(Timestamp { seconds: 1_704_070_800, nanos: 0 })
    );
    let runs = compute_upcoming_runs_after("0 0 * * *", after, 2).unwrap();
    assert_eq!(runs, vec![
        Timestamp { seconds: 1_704_153_600, nanos: 0 },
        Timestamp { seconds: 1_704_240_000, nanos: 0 },
    ]);
}

#[test]
fn cron_minimum_frequency() {
    let hourly = vec![Timestamp { seconds: 0, nanos: 0 }, Timestamp { seconds: 3600, nanos: 0 }];
    assert_eq!(check_min_frequency("0 * * * *", &hourly), Ok(()));
    let often = vec![Timestamp { seconds: 0, nanos: 0 }, Timestamp { seconds: 300, nanos: 0 }];
    assert_eq!(
        check_min_frequency("*/5 * * * *", &often),
        Err("Schedule frequency too high: occurrences are 5 minutes apart (minimum 60)".to_string())
    );
    assert_eq!(
        check_min_frequency("x", &vec![]),
        Err("Cannot determine frequency for cron expression 'x'".to_string())
    );
}
