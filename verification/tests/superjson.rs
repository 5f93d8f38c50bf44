use master_of_coin_backend::json::{JsonMember, JsonNumber, JsonValue};
use master_of_coin_backend::services::split_provider::superjson::{
    encode_query_input,
    amount_to_bigint, bigint_array_paths, bigint_to_amount, decode_error, decode_response,
    encode_mutation_body, encode_mutation_body_with_dates,
};

fn s(v: &str) -> JsonValue {
    JsonValue::String(v.to_string())
}

fn num(v: i64) -> JsonValue {
    JsonValue::Number(JsonNumber::Int(v))
}

fn obj(members: Vec<(&str, JsonValue)>) -> JsonValue {
    JsonValue::Object(
        members
            .into_iter()
            .map(|(k, v)| JsonMember { key: k.to_string(), value: v })
            .collect(),
    )
}

fn arr(items: Vec<JsonValue>) -> JsonValue {
    JsonValue::Array(items)
}

fn is_tag(v: &JsonValue, t: &str) -> bool {
    match v.as_array() {
        Some(a) => a.len() == 1 && a[0].as_str() == Some(t),
        None => false,
    }
}

#[test]
fn test_encode_mutation_body_with_bigints() {
    let data = obj(vec![
        ("amount", s("5000")),
        ("name", s("Test Expense")),
        (
            "participants",
            arr(vec![
                obj(vec![("userId", num(1)), ("amount", s("2500"))]),
                obj(vec![("userId", num(2)), ("amount", s("2500"))]),
            ]),
        ),
    ]);
    let encoded = encode_mutation_body(
        data,
        &["amount", "participants.0.amount", "participants.1.amount"],
    );
    let json = encoded.get("json").unwrap();
    assert_eq!(json.get("amount").unwrap().as_str(), Some("5000"));
    assert_eq!(json.get("name").unwrap().as_str(), Some("Test Expense"));
    let values = encoded.get("meta").unwrap().get("values").unwrap();
    assert!(is_tag(values.get("amount").unwrap(), "bigint"));
    assert!(is_tag(values.get("participants.0.amount").unwrap(), "bigint"));
    assert!(is_tag(values.get("participants.1.amount").unwrap(), "bigint"));
}

#[test]
fn test_encode_mutation_body_no_bigints() {
    let data = obj(vec![("expenseId", s("some-uuid"))]);
    let encoded = encode_mutation_body(data, &[]);
    assert_eq!(
        encoded.get("json").unwrap().get("expenseId").unwrap().as_str(),
        Some("some-uuid")
    );
    assert!(encoded.get("meta").is_none());
}

#[test]
fn encode_mutation_body_with_dates_marks_dates() {
    let data = obj(vec![("date", s("2024-01-01T00:00:00.000Z")), ("amount", s("100"))]);
    let encoded = encode_mutation_body_with_dates(data, &["amount", "date"], &["date"]);
    let values = encoded.get("meta").unwrap().get("values").unwrap();
    assert!(is_tag(values.get("amount").unwrap(), "bigint"));
    assert!(is_tag(values.get("date").unwrap(), "Date"));
    match values {
        JsonValue::Object(m) => assert_eq!(m.len(), 2),
        _ => panic!("values is not an object"),
    }
}

#[test]
fn test_decode_response_batch() {
    let response = arr(vec![obj(vec![(
        "result",
        obj(vec![(
            "data",
            obj(vec![
                ("json", obj(vec![("id", s("expense-123")), ("name", s("Test"))])),
                (
                    "meta",
                    obj(vec![("values", obj(vec![("amount", arr(vec![s("bigint")]))]))]),
                ),
            ]),
        )]),
    )])]);
    let decoded = decode_response(&response).unwrap();
    assert_eq!(decoded.get("id").unwrap().as_str(), Some("expense-123"));
    assert_eq!(decoded.get("name").unwrap().as_str(), Some("Test"));
}

#[test]
fn test_decode_response_single() {
    let response = obj(vec![(
        "result",
        obj(vec![(
            "data",
            obj(vec![
                ("json", obj(vec![("id", num(1)), ("name", s("User"))])),
                ("meta", obj(vec![])),
            ]),
        )]),
    )]);
    let decoded = decode_response(&response).unwrap();
    assert_eq!(decoded.get("id").unwrap().as_i64(), Some(1));
    assert_eq!(decoded.get("name").unwrap().as_str(), Some("User"));
}

#[test]
fn decode_response_without_envelope_returns_data() {
    let response = obj(vec![("result", obj(vec![("data", obj(vec![("id", num(7))]))]))]);
    let decoded = decode_response(&response).unwrap();
    assert_eq!(decoded.get("id").unwrap().as_i64(), Some(7));
    assert!(decode_response(&arr(vec![])).is_none());
    assert!(decode_response(&obj(vec![])).is_none());
}

#[test]
fn test_decode_error_batch() {
    let response = arr(vec![obj(vec![(
        "error",
        obj(vec![
            ("message", s("Not authorized")),
            ("code", num(-32600)),
            (
                "data",
                obj(vec![("code", s("UNAUTHORIZED")), ("httpStatus", num(401))]),
            ),
        ]),
    )])]);
    let (code, message) = decode_error(&response).unwrap();
    assert_eq!(code, "UNAUTHORIZED");
    assert_eq!(message, "Not authorized");
}

#[test]
fn test_decode_error_single() {
    let response = obj(vec![(
        "error",
        obj(vec![
            ("message", s("Expense not found")),
            ("code", num(-32600)),
            ("data", obj(vec![("code", s("NOT_FOUND")), ("httpStatus", num(404))])),
        ]),
    )]);
    let (code, message) = decode_error(&response).unwrap();
    assert_eq!(code, "NOT_FOUND");
    assert_eq!(message, "Expense not found");
}

#[test]
fn test_decode_error_not_error() {
    let response = arr(vec![obj(vec![(
        "result",
        obj(vec![("data", obj(vec![("json", obj(vec![("id", num(1))]))]))]),
    )])]);
    assert!(decode_error(&response).is_none());
}

#[test]
fn decode_error_defaults() {
    let response = obj(vec![("error", obj(vec![]))]);
    let (code, message) = decode_error(&response).unwrap();
    assert_eq!(code, "UNKNOWN");
    assert_eq!(message, "Unknown error");
}

#[test]
fn test_amount_to_bigint_whole_number() {
    assert_eq!(amount_to_bigint("100").unwrap(), 10000);
    assert_eq!(amount_to_bigint("0").unwrap(), 0);
    assert_eq!(amount_to_bigint("1").unwrap(), 100);
}

#[test]
fn test_amount_to_bigint_two_decimals() {
    assert_eq!(amount_to_bigint("100.00").unwrap(), 10000);
    assert_eq!(amount_to_bigint("50.50").unwrap(), 5050);
    assert_eq!(amount_to_bigint("0.01").unwrap(), 1);
    assert_eq!(amount_to_bigint("99.99").unwrap(), 9999);
}

#[test]
fn test_amount_to_bigint_one_decimal() {
    assert_eq!(amount_to_bigint("50.5").unwrap(), 5050);
    assert_eq!(amount_to_bigint("0.1").unwrap(), 10);
}

#[test]
fn test_amount_to_bigint_three_decimals() {
    assert_eq!(amount_to_bigint("50.505").unwrap(), 5051); // rounds up
    assert_eq!(amount_to_bigint("50.504").unwrap(), 5050); // rounds down
}

#[test]
fn test_amount_to_bigint_negative() {
    assert_eq!(amount_to_bigint("-100.00").unwrap(), -10000);
    assert_eq!(amount_to_bigint("-50.50").unwrap(), -5050);
}

#[test]
fn test_amount_to_bigint_invalid() {
    assert!(amount_to_bigint("").is_err());
    assert!(amount_to_bigint("abc").is_err());
    assert!(amount_to_bigint("1.2.3").is_err());
}

#[test]
fn amount_to_bigint_error_messages() {
    assert_eq!(amount_to_bigint("   ").unwrap_err(), "Empty amount string");
    assert_eq!(
        amount_to_bigint("1.2.3").unwrap_err(),
        "Invalid amount format: '1.2.3'"
    );
    assert!(amount_to_bigint("abc")
        .unwrap_err()
        .starts_with("Invalid whole number 'abc': "));
    assert_eq!(amount_to_bigint(" 12.3 ").unwrap(), 1230);
    assert_eq!(amount_to_bigint("-0.50").unwrap(), -50);
}

#[test]
fn test_bigint_to_amount() {
    assert_eq!(bigint_to_amount(10000), "100.00");
    assert_eq!(bigint_to_amount(5050), "50.50");
    assert_eq!(bigint_to_amount(1), "0.01");
    assert_eq!(bigint_to_amount(0), "0.00");
    assert_eq!(bigint_to_amount(9999), "99.99");
}

#[test]
fn test_bigint_to_amount_negative() {
    assert_eq!(bigint_to_amount(-10000), "-100.00");
    assert_eq!(bigint_to_amount(-5050), "-50.50");
}

#[test]
fn bigint_to_amount_extremes() {
    assert_eq!(bigint_to_amount(i64::MIN), "-92233720368547758.08");
    assert_eq!(bigint_to_amount(i64::MAX), "92233720368547758.07");
}

#[test]
fn test_bigint_amount_roundtrip() {
    let original = "123.45";
    let bigint = amount_to_bigint(original).unwrap();
    let back = bigint_to_amount(bigint);
    assert_eq!(back, original);
}

#[test]
fn bigint_amount_roundtrip_many_values() {
    for n in [-1_000_001i64, -100, -1, 0, 1, 7, 99, 100, 12345, 9_999_999] {
        assert_eq!(amount_to_bigint(&bigint_to_amount(n)).unwrap(), n);
    }
}

#[test]
fn test_bigint_array_paths() {
    let paths = bigint_array_paths("participants", "amount", 3);
    assert_eq!(
        paths,
        vec![
            "participants.0.amount",
            "participants.1.amount",
            "participants.2.amount",
        ]
    );
}

#[test]
fn test_bigint_array_paths_empty() {
    let paths = bigint_array_paths("participants", "amount", 0);
    assert!(paths.is_empty());
}

#[test]
fn test_encode_query_input() {
    let data = obj(vec![("expenseId", s("some-uuid"))]);
    let encoded = encode_query_input(&data, &[]);
    // URL-encoded JSON
    assert!(encoded.contains("json"));
    assert!(encoded.contains("some-uuid"));
    // no raw braces
    assert!(!encoded.contains('{'));
    assert_eq!(encoded, "%7B%22json%22%3A%7B%22expenseId%22%3A%22some-uuid%22%7D%7D");
}

#[test]
fn a_leading_minus_negates_an_amount() {
    for (plain, cents) in [("0.50", 50i64), ("50.505", 5051), ("12", 1200), ("7.5", 750)] {
        assert_eq!(amount_to_bigint(plain), Ok(cents));
        assert_eq!(amount_to_bigint(&format!("-{}", plain)), Ok(-cents));
    }
}
