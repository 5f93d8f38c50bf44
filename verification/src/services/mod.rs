pub mod split_provider;
pub mod account_service;
pub mod api_key_service;
pub mod auth_service;
pub mod analytics_service;
pub mod bank_provider;
pub mod bank_sync_service;
pub mod budget_service;
pub mod bulk_sync_service;
pub mod csv_parser_service;
pub mod debt_service;
pub mod debt_transaction_service;
pub mod drift_detection_service;
pub mod exchange_rate_service;
pub mod import_service;
pub mod investment_provider;
pub mod portfolio_sync_service;
pub mod split_sync_service;
pub mod split_sync_flow;
pub mod splitwise_oauth;
pub mod transaction_service;
pub mod transfer_service;
