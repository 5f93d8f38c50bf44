use master_of_coin_backend::decimal::Decimal;
use master_of_coin_backend::errors::ApiError;
use master_of_coin_backend::json::{JsonMember, JsonNumber, JsonValue};
use master_of_coin_backend::models::Timestamp;
use master_of_coin_backend::services::bank_provider::truelayer::{
    TrueLayerAccount, TrueLayerBalance, TrueLayerEnvironment, TrueLayerProvider, TrueLayerTransaction,
};
use master_of_coin_backend::services::bank_provider::types::{BankBalance, BankProviderError, BankTransaction};
use master_of_coin_backend::services::bank_sync_service::{
    balance_info, build_sync_lines, check_provider_access, import_notes, import_title, plan_access_token, plan_import,
    refresh_failure, refresh_imported_flags, refreshed_credentials, retry_delay_ms, BankSyncSummary, TokenPlan,
};
use master_of_coin_backend::services::bulk_sync_service::{
    check_item, choose_pull_provider, new_report, push_after_sync, record_outcome, PushNext, ProviderChoice, SyncAction,
    SyncItem, SyncTarget,
};
use master_of_coin_backend::services::investment_provider::trading212::Trading212Provider;
use master_of_coin_backend::services::investment_provider::types::{InvestmentProviderError, PortfolioSnapshot};
use master_of_coin_backend::services::portfolio_sync_service::{
    after_fetch_failure, check_filtered_provider, failed_account_result, missing_implementation, new_portfolio_report,
    portfolio_adjustment, record_account_result, synced_account_result, FetchNext,
};
use master_of_coin_backend::services::split_provider::splitpro::SplitProProvider;
use master_of_coin_backend::services::split_provider::splitwise::SplitwiseProvider;
use master_of_coin_backend::services::split_provider::types::{
    CreateExternalExpense, ExpenseUser, ExternalExpenseDetail, SplitProviderError,
};
use master_of_coin_backend::services::splitwise_oauth::{SplitwiseOAuth, SplitwiseOAuthError, SplitwiseTokens};
use master_of_coin_backend::types::{InvestmentProviderType, SplitProviderType};

const NOON: i64 = 1710072000; // 2024-03-10T12:00:00Z

fn at(seconds: i64) -> Timestamp {
    Timestamp { seconds, nanos: 0 }
}

fn d(m: i128, s: i64) -> Decimal {
    Decimal { mantissa: m, scale: s }
}

fn s(x: &str) -> JsonValue {
    JsonValue::String(x.to_string())
}

fn obj(members: Vec<(&str, JsonValue)>) -> JsonValue {
    JsonValue::Object(members.into_iter().map(|(k, v)| JsonMember { key: k.to_string(), value: v }).collect())
}

fn sandbox() -> TrueLayerProvider {
    TrueLayerProvider {
        client_id: "my id".to_string(),
        client_secret: "sec".to_string(),
        environment: TrueLayerEnvironment::Sandbox,
    }
}

fn bank_txn(id: &str, amount: Decimal) -> BankTransaction {
    BankTransaction {
        transaction_id: id.to_string(),
        description: "Coffee".to_string(),
        amount,
        currency: "GBP".to_string(),
        timestamp: at(NOON),
        transaction_type: "DEBIT".to_string(),
        merchant_name: Some("Costa".to_string()),
        category: None,
    }
}

fn expense_user(id: &str, paid: &str, owed: &str) -> ExpenseUser {
    ExpenseUser { external_user_id: id.to_string(), paid_share: paid.to_string(), owed_share: owed.to_string() }
}

fn dated(id: &str, date: &str) -> ExternalExpenseDetail {
    ExternalExpenseDetail {
        external_expense_id: id.to_string(),
        description: "x".to_string(),
        cost: "1.00".to_string(),
        currency_code: "EUR".to_string(),
        date: date.to_string(),
        users: vec![],
        provider_type: "splitpro".to_string(),
    }
}

#[test]
fn truelayer_environments_and_urls() {
    assert_eq!(TrueLayerEnvironment::from_setting(Some("Production")), TrueLayerEnvironment::Production);
    assert_eq!(TrueLayerEnvironment::from_setting(Some("prod")), TrueLayerEnvironment::Production);
    assert_eq!(TrueLayerEnvironment::from_setting(Some("live")), TrueLayerEnvironment::Sandbox);
    assert_eq!(TrueLayerEnvironment::from_setting(None), TrueLayerEnvironment::Sandbox);
    let p = sandbox();
    assert_eq!(p.token_url(), "https://auth.truelayer-sandbox.com/connect/token");
    assert_eq!(p.balance_url("acc1"), "https://api.truelayer-sandbox.com/data/v1/accounts/acc1/balance");
    assert_eq!(
        p.transactions_url("acc1", at(NOON), at(NOON + 86400)).unwrap(),
        "https://api.truelayer-sandbox.com/data/v1/accounts/acc1/transactions?from=2024-03-10T12:00:00Z&to=2024-03-11T12:00:00Z"
    );
    assert_eq!(
        p.generate_auth_url("s1", "https://app/cb").unwrap(),
        "https://auth.truelayer-sandbox.com/?response_type=code&client_id=my%20id&redirect_uri=https%3A%2F%2Fapp%2Fcb\
         &scope=info%20accounts%20balance%20transactions%20offline_access&state=s1&providers=uk-cs-mock%20uk-ob-all"
    );
    match TrueLayerProvider::from_settings(None, Some("x".to_string()), None) {
        Err(BankProviderError::ConfigurationError(m)) => assert_eq!(m, "TRUELAYER_CLIENT_ID not set"),
        other => panic!("unexpected {:?}", other),
    }
    match TrueLayerProvider::from_settings(Some("i".to_string()), None, None) {
        Err(BankProviderError::ConfigurationError(m)) => assert_eq!(m, "TRUELAYER_CLIENT_SECRET not set"),
        other => panic!("unexpected {:?}", other),
    }
    let q = TrueLayerProvider::from_settings(Some("i".to_string()), Some("c".to_string()), Some("production")).unwrap();
    assert_eq!(q.environment, TrueLayerEnvironment::Production);
    assert_eq!(q.token_url(), "https://auth.truelayer.com/connect/token");
}

#[test]
fn truelayer_forms_and_answers() {
    let p = sandbox();
    let form = p.code_exchange_form("c0de", "https://app/cb");
    assert_eq!(form[0], ("grant_type".to_string(), "authorization_code".to_string()));
    assert_eq!(form[4], ("code".to_string(), "c0de".to_string()));
    let form = p.refresh_form("r1");
    assert_eq!(form.len(), 4);
    assert_eq!(form[3], ("refresh_token".to_string(), "r1".to_string()));
    assert!(TrueLayerProvider::check_answer(200, "OK", "", None).is_ok());
    assert!(matches!(
        TrueLayerProvider::check_answer(401, "Unauthorized", "nope", Some("access_token_expired")),
        Err(BankProviderError::TokenExpired)
    ));
    match TrueLayerProvider::check_answer(401, "Unauthorized", "nope", None) {
        Err(BankProviderError::AuthenticationFailed(m)) => assert_eq!(m, "HTTP 401: nope"),
        other => panic!("unexpected {:?}", other),
    }
    assert!(matches!(
        TrueLayerProvider::check_answer(429, "Too Many Requests", "", None),
        Err(BankProviderError::RateLimited(None))
    ));
    match TrueLayerProvider::check_answer(500, "Internal Server Error", "x", None) {
        Err(BankProviderError::ApiError(m)) => assert_eq!(m, "HTTP Internal Server Error: x"),
        other => panic!("unexpected {:?}", other),
    }
    assert!(matches!(TrueLayerProvider::refresh_error(400, "Bad Request", ""), BankProviderError::TokenExpired));
    match TrueLayerProvider::refresh_error(500, "Internal Server Error", "x") {
        BankProviderError::AuthenticationFailed(m) => assert_eq!(m, "Token refresh failed: HTTP Internal Server Error: x"),
        other => panic!("unexpected {:?}", other),
    }
    match TrueLayerProvider::exchange_error("Bad Request", "y") {
        BankProviderError::AuthenticationFailed(m) => assert_eq!(m, "Token exchange failed: HTTP Bad Request: y"),
        other => panic!("unexpected {:?}", other),
    }
    let t = TrueLayerProvider::tokens_from_answer("a".to_string(), Some("r".to_string()), Some(3600), at(NOON));
    assert_eq!(t.access_token, "a");
    assert_eq!(t.refresh_token, Some("r".to_string()));
    assert_eq!(t.expires_at.map(|x| x.seconds), Some(NOON + 3600));
    assert!(TrueLayerProvider::tokens_from_answer("a".to_string(), None, None, at(NOON)).expires_at.is_none());
}

#[test]
fn truelayer_listings_are_read() {
    let accounts = TrueLayerProvider::accounts_from_listing(&vec![TrueLayerAccount {
        account_id: "a1".to_string(),
        display_name: None,
        account_type: None,
        currency: None,
        account_number: None,
    }]);
    assert_eq!(accounts.len(), 1);
    assert_eq!(accounts[0].display_name, "Unknown");
    assert_eq!(accounts[0].account_type, "UNKNOWN");
    assert_eq!(accounts[0].currency, "GBP");
    let listing = vec![
        TrueLayerTransaction {
            transaction_id: "t1".to_string(),
            timestamp: "2024-03-10T12:00:00+00:00".to_string(),
            description: None,
            amount: d(-1250, 2),
            currency: "GBP".to_string(),
            transaction_type: "DEBIT".to_string(),
            merchant_name: Some("Costa".to_string()),
            transaction_category: Some("PURCHASE".to_string()),
        },
        TrueLayerTransaction {
            transaction_id: "t2".to_string(),
            timestamp: "yesterday".to_string(),
            description: Some("Rent".to_string()),
            amount: d(-80000, 2),
            currency: "GBP".to_string(),
            transaction_type: "DEBIT".to_string(),
            merchant_name: None,
            transaction_category: None,
        },
    ];
    let read = TrueLayerProvider::transactions_from_listing(&listing, at(NOON + 5));
    assert_eq!(read.len(), 2);
    assert_eq!(read[0].description, "No description");
    assert_eq!(read[0].timestamp.seconds, NOON);
    assert_eq!(read[0].category, Some("PURCHASE".to_string()));
    assert_eq!(read[1].description, "Rent");
    assert_eq!(read[1].timestamp.seconds, NOON + 5);
    match TrueLayerProvider::balance_from_listing(&vec![], at(NOON)) {
        Err(BankProviderError::InvalidResponse(m)) => assert_eq!(m, "No balance data returned"),
        other => panic!("unexpected {:?}", other),
    }
    let b = TrueLayerProvider::balance_from_listing(
        &vec![TrueLayerBalance { current: d(1050, 2), available: None, currency: "GBP".to_string(), update_timestamp: None }],
        at(NOON),
    )
    .unwrap();
    assert_eq!(b.current, d(1050, 2));
    assert_eq!(b.updated_at.seconds, NOON);
}

#[test]
fn bank_sync_lines_and_import_plan() {
    assert!(check_provider_access(1, 1, true, "p").is_ok());
    assert_eq!(check_provider_access(1, 2, true, "p"), Err(ApiError::NotFound("Bank provider p not found".to_string())));
    assert_eq!(
        check_provider_access(1, 1, false, "p"),
        Err(ApiError::BadRequest("Bank provider is not active. Please reconnect.".to_string()))
    );
    let fetched = vec![bank_txn("t1", d(-1250, 2)), bank_txn("t2", d(3, 0))];
    let (mut lines, summary) = build_sync_lines(&fetched, &vec!["t1".to_string()]);
    assert_eq!(summary, BankSyncSummary { total_fetched: 2, already_imported: 1, new_transactions: 1 });
    assert_eq!(lines[0].amount, "-12.50");
    assert_eq!(lines[1].amount, "3.00");
    assert!(lines[0].already_imported && !lines[1].already_imported);
    let again = refresh_imported_flags(&mut lines, &vec!["t1".to_string(), "t2".to_string()]);
    assert_eq!(again, BankSyncSummary { total_fetched: 2, already_imported: 2, new_transactions: 0 });
    let (mut lines, _) = build_sync_lines(&fetched, &vec!["t1".to_string()]);
    let (take, skipped) = plan_import(&lines, &vec!["t1".to_string(), "t2".to_string(), "zz".to_string()]);
    assert_eq!(take, vec![1]);
    assert_eq!(skipped, 1);
    refresh_imported_flags(&mut lines, &vec![]);
    let (take, skipped) = plan_import(&lines, &vec!["t2".to_string()]);
    assert_eq!((take, skipped), (vec![1], 0));
    let info = balance_info(&BankBalance {
        current: d(-1250, 2),
        available: Some(d(5, 0)),
        currency: "GBP".to_string(),
        updated_at: at(NOON),
    });
    assert_eq!(info.current, "-12.50");
    assert_eq!(info.available, Some("5.00".to_string()));
}

#[test]
fn bank_titles_notes_and_retries() {
    assert_eq!(import_title("Coffee", Some("Costa")), "Costa - Coffee");
    assert_eq!(import_title("Costa Coffee", Some("Costa")), "Costa Coffee");
    assert_eq!(import_title("Coffee", None), "Coffee");
    assert_eq!(import_title(&"a".repeat(300), None), "a".repeat(255));
    assert_eq!(import_notes(Some("Costa")), Some("Imported from bank - Merchant: Costa".to_string()));
    assert_eq!(import_notes(None), None);
    assert_eq!(retry_delay_ms(0, true), Some(500));
    assert_eq!(retry_delay_ms(1, true), Some(1000));
    assert_eq!(retry_delay_ms(2, true), None);
    assert_eq!(retry_delay_ms(0, false), None);
    assert_eq!(
        refresh_failure(true, "x"),
        ApiError::BadRequest("Bank consent has expired. Please reconnect your bank account.".to_string())
    );
    assert_eq!(
        refresh_failure(false, "boom"),
        ApiError::InternalWithMessage("Failed to refresh access token: boom".to_string())
    );
}

#[test]
fn bank_access_token_plans() {
    let creds = obj(vec![
        ("access_token", s("a")),
        ("refresh_token", s("r")),
        ("token_expires_at", s("2024-03-10T12:10:00+00:00")),
    ]);
    match plan_access_token(&creds, at(NOON)) {
        Ok(TokenPlan::Use(t)) => assert_eq!(t, "a"),
        other => panic!("unexpected {:?}", other),
    }
    match plan_access_token(&creds, at(NOON + 400)) {
        Ok(TokenPlan::Refresh { access_token, refresh_token }) => {
            assert_eq!(access_token, "a");
            assert_eq!(refresh_token, "r");
        },
        other => panic!("unexpected {:?}", other),
    }
    let no_refresh = obj(vec![("access_token", s("a")), ("token_expires_at", s("2024-03-10T12:10:00+00:00"))]);
    assert!(matches!(plan_access_token(&no_refresh, at(NOON + 400)), Ok(TokenPlan::Reconnect)));
    assert_eq!(
        plan_access_token(&obj(vec![]), at(NOON)).unwrap_err(),
        ApiError::InternalWithMessage("Missing access_token in credentials".to_string())
    );
    let stored = refreshed_credentials("a2", "r2", Some(at(NOON))).unwrap();
    assert_eq!(stored.get("access_token").unwrap().as_str(), Some("a2"));
    assert_eq!(stored.get("refresh_token").unwrap().as_str(), Some("r2"));
    assert_eq!(stored.get("token_expires_at").unwrap().as_str(), Some("2024-03-10T12:00:00+00:00"));
    assert!(refreshed_credentials("a2", "r2", None).unwrap().get("token_expires_at").unwrap().is_null());
}

#[test]
fn splitwise_requests_and_errors() {
    match SplitwiseProvider::map_status_error(401, "Unauthorized", "bad") {
        SplitProviderError::AuthenticationFailed(m) => assert_eq!(m, "bad"),
        other => panic!("unexpected {:?}", other),
    }
    assert!(matches!(SplitwiseProvider::map_status_error(404, "Not Found", "gone"), SplitProviderError::NotFound(_)));
    assert!(matches!(SplitwiseProvider::map_status_error(429, "", ""), SplitProviderError::RateLimited(None)));
    match SplitwiseProvider::map_status_error(500, "Internal Server Error", "x") {
        SplitProviderError::ApiError(m) => assert_eq!(m, "HTTP Internal Server Error: x"),
        other => panic!("unexpected {:?}", other),
    }
    let params = SplitwiseProvider::build_users_params(&[
        expense_user("1", "10.00", "5.00"),
        expense_user("2", "0.00", "5.00"),
    ]);
    assert_eq!(params.len(), 6);
    assert_eq!(params[0], ("users__0__user_id".to_string(), "1".to_string()));
    assert_eq!(params[4], ("users__1__paid_share".to_string(), "0.00".to_string()));
    assert_eq!(params[5], ("users__1__owed_share".to_string(), "5.00".to_string()));
    let creds = obj(vec![("access_token", s("a")), ("refresh_token", s("r")), ("splitwise_user_id", JsonValue::Number(JsonNumber::Int(99)))]);
    let form = SplitwiseProvider::refresh_request(&creds, Some("id"), Some("sec")).unwrap();
    assert_eq!(
        form,
        vec![
            ("grant_type".to_string(), "refresh_token".to_string()),
            ("refresh_token".to_string(), "r".to_string()),
            ("client_id".to_string(), "id".to_string()),
            ("client_secret".to_string(), "sec".to_string()),
        ]
    );
    match SplitwiseProvider::refresh_request(&creds, None, Some("sec")) {
        Err(SplitProviderError::ConfigurationError(m)) => assert_eq!(m, "SPLITWISE_CLIENT_ID not set"),
        other => panic!("unexpected {:?}", other),
    }
    match SplitwiseProvider::refresh_request(&obj(vec![]), Some("id"), Some("sec")) {
        Err(SplitProviderError::ConfigurationError(m)) => assert_eq!(m, "Missing refresh_token in credentials"),
        other => panic!("unexpected {:?}", other),
    }
    let renewed = SplitwiseProvider::refreshed_credentials(&creds, "a2", None, "r", 3600, at(NOON)).unwrap();
    assert_eq!(renewed.get("access_token").unwrap().as_str(), Some("a2"));
    assert_eq!(renewed.get("refresh_token").unwrap().as_str(), Some("r"));
    assert_eq!(renewed.get("token_expires_at").unwrap().as_str(), Some("2024-03-10T13:00:00+00:00"));
    assert_eq!(renewed.get("splitwise_user_id").unwrap().as_i64(), Some(99));
    assert!(SplitwiseProvider::is_token_expired_at(&renewed, at(NOON + 3600)));
    assert!(!SplitwiseProvider::is_token_expired_at(&renewed, at(NOON)));
    assert!(!SplitwiseProvider::is_token_expired_at(&creds, at(NOON)));
    assert_eq!(SplitwiseProvider::token_url(), "https://secure.splitwise.com/oauth/token");
}

#[test]
fn splitwise_oauth_flow() {
    assert_eq!(
        SplitwiseOAuth::from_settings(None, Some("sec"), Some("https://app/cb")).unwrap_err(),
        SplitwiseOAuthError::ConfigurationError("SPLITWISE_CLIENT_ID not set".to_string())
    );
    assert_eq!(
        SplitwiseOAuth::from_settings(Some("id"), Some("sec"), None).unwrap_err(),
        SplitwiseOAuthError::ConfigurationError("SPLITWISE_REDIRECT_URI not set".to_string())
    );
    let o = SplitwiseOAuth::from_settings(Some("id"), Some("sec"), Some("https://app/cb")).unwrap();
    assert_eq!(
        o.generate_auth_url("st"),
        "https://secure.splitwise.com/oauth/authorize?client_id=id&response_type=code&redirect_uri=https%3A%2F%2Fapp%2Fcb&state=st"
    );
    let form = o.code_exchange_form("c");
    assert_eq!(form[1], ("code".to_string(), "c".to_string()));
    assert_eq!(form[4], ("redirect_uri".to_string(), "https://app/cb".to_string()));
    let err = SplitwiseOAuth::check_status(false, "Token exchange failed", "Bad Request", "x").unwrap_err();
    assert_eq!(err, SplitwiseOAuthError::OAuthError("Token exchange failed: HTTP Bad Request: x".to_string()));
    assert_eq!(err.message(), "OAuth error: Token exchange failed: HTTP Bad Request: x");
    assert!(SplitwiseOAuth::check_status(true, "f", "OK", "").is_ok());
    let answer = obj(vec![("user", obj(vec![("id", JsonValue::Number(JsonNumber::Int(42)))]))]);
    assert_eq!(SplitwiseOAuth::user_member(&answer).unwrap().get("id").unwrap().as_i64(), Some(42));
    assert_eq!(
        SplitwiseOAuth::user_member(&obj(vec![])).unwrap_err(),
        SplitwiseOAuthError::InvalidResponse("Missing 'user' field".to_string())
    );
    let tokens = SplitwiseTokens {
        access_token: "a".to_string(),
        refresh_token: "r".to_string(),
        expires_in: 3600,
        token_type: "bearer".to_string(),
    };
    let creds = SplitwiseOAuth::build_credentials(&tokens, 42, at(NOON)).unwrap();
    assert_eq!(creds.get("token_expires_at").unwrap().as_str(), Some("2024-03-10T13:00:00+00:00"));
    assert_eq!(creds.get("splitwise_user_id").unwrap().as_i64(), Some(42));
    assert_eq!(creds.get("refresh_token").unwrap().as_str(), Some("r"));
}

#[test]
fn trading212_requests() {
    assert_eq!(Trading212Provider::base_url("demo"), "https://demo.trading212.com");
    assert_eq!(Trading212Provider::base_url("live"), "https://live.trading212.com");
    assert_eq!(Trading212Provider::build_auth_header("k", "s"), "Basic azpz");
    let req = Trading212Provider::portfolio_request(&obj(vec![
        ("api_key", s("k")),
        ("api_secret", s("s")),
        ("environment", s("demo")),
    ]))
    .unwrap();
    assert_eq!(req.url, "https://demo.trading212.com/api/v0/equity/account/cash");
    assert_eq!(req.auth_header, "Basic azpz");
    let live = Trading212Provider::portfolio_request(&obj(vec![("api_key", s("k")), ("api_secret", s("s"))])).unwrap();
    assert_eq!(live.url, "https://live.trading212.com/api/v0/equity/account/cash");
    assert_eq!(
        Trading212Provider::portfolio_request(&obj(vec![("api_key", s("k"))])).unwrap_err(),
        InvestmentProviderError::InvalidResponse("Missing api_secret in credentials".to_string())
    );
    assert!(Trading212Provider::check_status(200, "OK", "").is_ok());
    assert_eq!(
        Trading212Provider::check_status(401, "Unauthorized", "no").unwrap_err(),
        InvestmentProviderError::AuthenticationFailed("Trading 212 returned 401: no".to_string())
    );
    assert_eq!(Trading212Provider::check_status(429, "", "").unwrap_err(), InvestmentProviderError::RateLimited(None));
    assert_eq!(
        Trading212Provider::check_status(503, "Service Unavailable", "down").unwrap_err(),
        InvestmentProviderError::ApiError("Trading 212 returned Service Unavailable: down".to_string())
    );
}

#[test]
fn splitpro_requests_and_answers() {
    assert_eq!(
        SplitProProvider::build_trpc_url("https://sp.example", "expense.addOrEditExpense"),
        "https://sp.example/api/trpc/expense.addOrEditExpense"
    );
    match SplitProProvider::map_trpc_error("FORBIDDEN", "no") {
        SplitProviderError::AuthenticationFailed(m) => assert_eq!(m, "no"),
        other => panic!("unexpected {:?}", other),
    }
    match SplitProProvider::map_trpc_error("BAD_REQUEST", "bad") {
        SplitProviderError::ApiError(m) => assert_eq!(m, "tRPC BAD_REQUEST: bad"),
        other => panic!("unexpected {:?}", other),
    }
    assert!(matches!(SplitProProvider::map_http_error(404, "Not Found", "x"), SplitProviderError::NotFound(_)));
    let users = [expense_user("7", "0.00", "5.00"), expense_user("8", "10.00", "5.00")];
    assert_eq!(SplitProProvider::determine_payer(&users, &vec![false, true], 1), 8);
    assert_eq!(SplitProProvider::determine_payer(&users, &vec![false, false], 1), 1);
    let odd = [expense_user("me", "10.00", "10.00")];
    assert_eq!(SplitProProvider::determine_payer(&odd, &vec![true], 3), 3);
    let data = SplitProProvider::expense_data(None, 7, "Dinner", 1250, "EUR", vec![], "2024-03-10T12:00:00.000Z".to_string());
    assert_eq!(data.get("paidBy").unwrap().as_i64(), Some(7));
    assert_eq!(data.get("amount").unwrap().as_str(), Some("1250"));
    assert_eq!(data.get("splitType").unwrap().as_str(), Some("EXACT"));
    assert!(data.get("groupId").unwrap().is_null());
    assert!(data.get("expenseId").is_none());
    let edit = SplitProProvider::expense_data(Some("e1"), 7, "Dinner", 1250, "EUR", vec![], "d".to_string());
    assert_eq!(edit.get("expenseId").unwrap().as_str(), Some("e1"));
    let made = SplitProProvider::created_expense("https://sp.example", &obj(vec![("id", s("e1"))])).unwrap();
    assert_eq!(made.external_expense_id, "e1");
    assert_eq!(made.external_url, Some("https://sp.example/expenses/e1".to_string()));
    let in_list = SplitProProvider::created_expense("https://sp.example", &JsonValue::Array(vec![obj(vec![("id", s("e2"))])]));
    assert_eq!(in_list.unwrap().external_expense_id, "e2");
    match SplitProProvider::created_expense("https://sp.example", &obj(vec![])) {
        Err(SplitProviderError::InvalidResponse(m)) => assert_eq!(m, "No expense ID in response"),
        other => panic!("unexpected {:?}", other),
    }
    let body = SplitProProvider::delete_expense_body("e3");
    assert_eq!(body.get("json").unwrap().get("expenseId").unwrap().as_str(), Some("e3"));
    let q = SplitProProvider::friend_query(Some("42")).unwrap();
    assert_eq!(q.get("friendId").unwrap().as_i64(), Some(42));
    match SplitProProvider::friend_query(Some("x")) {
        Err(SplitProviderError::ConfigurationError(m)) => assert_eq!(m, "Invalid friend_id format"),
        other => panic!("unexpected {:?}", other),
    }
    match SplitProProvider::friend_query(None) {
        Err(SplitProviderError::ConfigurationError(m)) => {
            assert_eq!(m, "friend_id is required for SplitPro expense queries")
        },
        other => panic!("unexpected {:?}", other),
    }
}

#[test]
fn splitpro_expense_mutation_and_filter() {
    let creds = obj(vec![
        ("base_url", s("https://sp.example/")),
        ("session_token", s("tok")),
        ("splitpro_user_id", JsonValue::Number(JsonNumber::Int(7))),
    ]);
    let request = CreateExternalExpense {
        description: "Dinner".to_string(),
        cost: "12.50".to_string(),
        currency_code: "EUR".to_string(),
        date: at(NOON),
        group_id: None,
        users: vec![expense_user("7", "12.50", "6.25"), expense_user("8", "0.00", "6.25")],
        notes: None,
    };
    let m = SplitProProvider::create_expense_mutation(&creds, &request, &vec![true, false]).unwrap().unwrap();
    assert_eq!(m.base_url, "https://sp.example");
    assert_eq!(m.session_token, "tok");
    let json = m.body.get("json").unwrap();
    assert_eq!(json.get("paidBy").unwrap().as_i64(), Some(7));
    assert_eq!(json.get("amount").unwrap().as_str(), Some("1250"));
    assert_eq!(json.get("expenseDate").unwrap().as_str(), Some("2024-03-10T12:00:00.000Z"));
    assert_eq!(json.get("participants").unwrap().as_array().unwrap().len(), 2);
    let no_token = obj(vec![("base_url", s("https://sp.example")), ("splitpro_user_id", JsonValue::Number(JsonNumber::Int(7)))]);
    match SplitProProvider::create_expense_mutation(&no_token, &request, &vec![true, false]) {
        Some(Err(SplitProviderError::ConfigurationError(m))) => assert_eq!(m, "Missing session_token in credentials"),
        other => panic!("unexpected {:?}", other),
    }
    let all = vec![dated("a", "2024-03-01"), dated("b", "2024-03-10"), dated("c", "2024-03-20")];
    let kept = SplitProProvider::filter_expenses(all.clone(), Some("2024-03-05"), Some("2024-03-15"), None);
    assert_eq!(kept.len(), 1);
    assert_eq!(kept[0].external_expense_id, "b");
    let first = SplitProProvider::filter_expenses(all.clone(), None, None, Some(1));
    assert_eq!(first.len(), 1);
    assert_eq!(first[0].external_expense_id, "a");
    assert_eq!(SplitProProvider::filter_expenses(all, Some("2024-03-10"), None, Some(5)).len(), 2);
}

#[test]
fn bulk_sync_items_and_report() {
    let push = SyncItem { action: SyncAction::Push, transaction_id: Some(5), external_expense_id: None, provider_type: None };
    assert!(matches!(check_item(&push), Ok(SyncTarget::Push(5))));
    let bad_push = SyncItem { action: SyncAction::Push, transaction_id: None, external_expense_id: None, provider_type: None };
    let failed = check_item(&bad_push).unwrap_err();
    assert_eq!(failed.status, "failed");
    assert_eq!(failed.error, Some("push action requires transaction_id".to_string()));
    let empty_pull = SyncItem {
        action: SyncAction::Pull,
        transaction_id: None,
        external_expense_id: Some(String::new()),
        provider_type: Some(SplitProviderType::Splitwise),
    };
    let failed = check_item(&empty_pull).unwrap_err();
    assert_eq!(failed.error, Some("pull action requires external_expense_id".to_string()));
    assert_eq!(failed.provider_type, Some(SplitProviderType::Splitwise));
    let mut report = new_report(2);
    let done = match push_after_sync(5, &obj(vec![("status", s("created")), ("external_expense_id", s("e1"))])).unwrap() {
        PushNext::Done(r) => r,
        other => panic!("unexpected {:?}", other),
    };
    assert_eq!(done.detail.as_ref().unwrap().get("sync_status").unwrap().as_str(), Some("created"));
    assert_eq!(done.external_expense_id, Some("e1".to_string()));
    record_outcome(&mut report, &push, Ok(done));
    record_outcome(&mut report, &push, Err("boom".to_string()));
    assert_eq!((report.summary.total, report.summary.succeeded, report.summary.failed), (2, 1, 1));
    assert_eq!(report.items.len(), 2);
    assert_eq!(report.items[1].error, Some("boom".to_string()));
    match push_after_sync(5, &obj(vec![("status", s("mismatch")), ("external_expense_id", s("e9"))])) {
        Ok(PushNext::Resolve(e)) => assert_eq!(e, "e9"),
        other => panic!("unexpected {:?}", other),
    }
    assert_eq!(
        push_after_sync(5, &obj(vec![("status", s("mismatch"))])).unwrap_err(),
        "mismatch response missing external_expense_id"
    );
    let providers = vec![
        ProviderChoice { id: 1, is_active: false, provider_type: SplitProviderType::Splitwise },
        ProviderChoice { id: 2, is_active: true, provider_type: SplitProviderType::SplitPro },
        ProviderChoice { id: 3, is_active: true, provider_type: SplitProviderType::Splitwise },
    ];
    assert_eq!(choose_pull_provider(&providers, Some(SplitProviderType::Splitwise)), Ok(3));
    assert_eq!(choose_pull_provider(&providers, None), Ok(2));
    assert_eq!(
        choose_pull_provider(&vec![], Some(SplitProviderType::SplitPro)),
        Err("No active splitpro provider configured for user".to_string())
    );
    assert_eq!(choose_pull_provider(&vec![], None), Err("No active split provider configured for user".to_string()));
}

#[test]
fn portfolio_sync_steps() {
    assert!(matches!(after_fetch_failure(0, true, "x"), FetchNext::Retry(1)));
    assert!(matches!(after_fetch_failure(2, true, "x"), FetchNext::Retry(4)));
    match after_fetch_failure(3, true, "x") {
        FetchNext::Fail(m) => assert_eq!(m, "All retry attempts exhausted: x"),
        other => panic!("unexpected {:?}", other),
    }
    match after_fetch_failure(0, false, "x") {
        FetchNext::Fail(m) => assert_eq!(m, "Provider error: x"),
        other => panic!("unexpected {:?}", other),
    }
    assert_eq!(check_filtered_provider(Some((true, 1)), 1, 9), Ok(()));
    assert_eq!(
        check_filtered_provider(Some((false, 1)), 1, 9),
        Err("Investment provider not found or not active for this account".to_string())
    );
    assert_eq!(
        check_filtered_provider(None, 1, 1),
        Err("No investment provider configured for account 00000000-0000-0000-0000-000000000001".to_string())
    );
    assert_eq!(missing_implementation(InvestmentProviderType::Trading212), "No provider implementation for type: TRADING_212");
    let snapshot = PortfolioSnapshot {
        stock_value: d(105050, 2),
        invested_amount: d(900, 0),
        currency: "EUR".to_string(),
        timestamp: at(NOON),
    };
    let adj = portfolio_adjustment(&snapshot, &d(100000, 2));
    assert_eq!(adj.delta, d(5050, 2));
    assert_eq!(adj.title, "Portfolio Value Adjustment");
    assert_eq!(adj.notes, "Automated portfolio sync: stock value 1050.50 (invested 900)");
    let synced = synced_account_result(
        4,
        "Broker".to_string(),
        InvestmentProviderType::Trading212,
        &d(100000, 2),
        &d(105050, 2),
        &d(5050, 2),
        Some(9),
    );
    assert_eq!(synced.previous_balance, "1000.00");
    assert_eq!(synced.new_value, "1050.50");
    assert_eq!(synced.adjustment_amount, "50.50");
    assert_eq!(synced.status, "synced");
    let unchanged =
        synced_account_result(4, "Broker".to_string(), InvestmentProviderType::Trading212, &d(1, 0), &d(1, 0), &d(0, 0), None);
    assert_eq!(unchanged.status, "no_change");
    let failed = failed_account_result(5, InvestmentProviderType::Trading212, "down".to_string());
    assert_eq!(failed.account_name, "Unknown");
    assert_eq!(failed.previous_balance, "0.00");
    let mut report = new_portfolio_report();
    record_account_result(&mut report, synced);
    record_account_result(&mut report, unchanged);
    record_account_result(&mut report, failed);
    assert_eq!((report.total_synced, report.total_failed, report.synced_accounts.len()), (2, 1, 3));
}
