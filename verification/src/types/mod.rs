pub mod account_type;
pub mod api_key_status;
pub mod bank_provider_type;
pub mod budget_period;
pub mod confidence_level;
pub mod currency_code;
pub mod investment_provider_type;
pub mod job_types;
pub mod split_provider_type;

pub use account_type::AccountType;
pub use api_key_status::ApiKeyStatus;
pub use bank_provider_type::BankProviderType;
pub use budget_period::BudgetPeriod;
pub use confidence_level::ConfidenceLevel;
pub use currency_code::CurrencyCode;
pub use investment_provider_type::InvestmentProviderType;
pub use job_types::{JobStatus, JobType};
pub use split_provider_type::SplitProviderType;
