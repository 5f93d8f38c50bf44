//! The decisions of syncing investment accounts with their brokerage: which
//! accounts are synced, how a valuation becomes an adjustment of the
//! account, when a failed valuation is retried, and the report.
use vstd::prelude::*;
use crate::decimal::{aligned, common_scale, decimal_text, decimal_text_2dp, decimal_to_string, decimal_to_string_2dp, difference_fits, Decimal};
use crate::json::{field_str, JsonValue};
use crate::services::investment_provider::types::PortfolioSnapshot;
use crate::text::{owned, push_str};
use crate::types::investment_provider_type::investment_provider_type_label;
use crate::types::InvestmentProviderType;
use crate::utils::encryption::{decrypt_credentials, encryption_error_message, encryption_error_view, opened_text, opt_view, parsed_json, EncryptionErrorView};
use crate::utils::oauth_state::{uuid_text, uuid_to_text};

verus! {

/// Retries of a valuation after the first attempt.
pub const PORTFOLIO_MAX_RETRIES: u32 = 3;

/// What became of one investment account.
#[derive(Debug, Clone)]
pub struct AccountSyncResult {
    pub account_id: u128,
    pub account_name: String,
    pub provider_type: InvestmentProviderType,
    pub previous_balance: String,
    pub new_value: String,
    pub adjustment_amount: String,
    pub adjustment_transaction_id: Option<u128>,
    /// "synced", "no_change" or "failed"
    pub status: String,
    pub error: Option<String>,
}

#[derive(Debug, Clone)]
pub struct PortfolioSyncReport {
    pub synced_accounts: Vec<AccountSyncResult>,
    pub total_synced: i64,
    pub total_failed: i64,
}

/// Checks the investment connection of the account a sync is restricted
/// to: `found` is its activity and owner, where there is one.
pub fn check_filtered_provider(found: Option<(bool, u128)>, user_id: u128, account_id: u128) -> (res: Result<(), String>)
    ensures
        match found {
            Some((active, owner)) => if active && owner == user_id {
                res is Ok
            } else {
                res matches Err(m) && m@ == "Investment provider not found or not active for this account"@
            },
            None => res matches Err(m) && m@ == "No investment provider configured for account "@ + uuid_text(account_id),
        },
{
    match found {
        Some((active, owner)) => if active && owner == user_id {
            Ok(())
        } else {
            Err(owned("Investment provider not found or not active for this account"))
        },
        None => {
            let mut m = owned("No investment provider configured for account ");
            push_str(&mut m, uuid_to_text(account_id).as_str());
            Err(m)
        },
    }
}

/// The credentials of an investment connection: the sealed text in member
/// `encrypted`, opened with the key setting `setting` and read as JSON.
pub fn open_investment_credentials(setting: Option<&str>, credentials: &JsonValue) -> (res: Result<JsonValue, String>)
    ensures
        match field_str(*credentials, "encrypted"@) {
            None => res matches Err(m) && m@ == "Invalid credentials format"@,
            Some(sealed) => match opened_text(opt_view(setting), sealed) {
                Err(v) => res matches Err(m) && m@ == "Failed to decrypt credentials: "@ + encryption_error_message(v),
                Ok(p) => match parsed_json(p) {
                    Err(j) => res matches Err(m) && m@ == "Failed to decrypt credentials: "@ + encryption_error_message(
                        EncryptionErrorView::JsonError(j),
                    ),
                    Ok(j) => res matches Ok(v) && crate::json::json_view(v) == j,
                },
            },
        },
{
    let sealed = match crate::json::str_field(credentials, "encrypted") {
        Some(s) => s,
        None => {
            return Err(owned("Invalid credentials format"));
        },
    };
    match decrypt_credentials(setting, sealed) {
        Ok(v) => Ok(v),
        Err(e) => {
            let mut m = owned("Failed to decrypt credentials: ");
            push_str(&mut m, e.message().as_str());
            Err(m)
        },
    }
}

/// The error when no brokerage implementation serves a connection's type.
pub fn missing_implementation(provider_type: InvestmentProviderType) -> (res: String)
    ensures
        res@ == "No provider implementation for type: "@ + investment_provider_type_label(provider_type),
{
    let mut m = owned("No provider implementation for type: ");
    push_str(&mut m, provider_type.display_text().as_str());
    m
}

/// What follows a failed valuation.
#[derive(Debug, Clone)]
pub enum FetchNext {
    /// Try again after waiting this many seconds.
    Retry(u64),
    /// Give up with this error.
    Fail(String),
}

/// What follows the failure (`error_text`) of valuation attempt `attempt`
/// (0 is the first): an error that cannot pass is reported at once; a
/// transient one is retried after 1, 2, then 4 seconds, until the retries
/// run out.
pub fn after_fetch_failure(attempt: u32, retryable: bool, error_text: &str) -> (res: FetchNext)
    requires
        attempt <= PORTFOLIO_MAX_RETRIES,
    ensures
        !retryable ==> (res matches FetchNext::Fail(m) && m@ == "Provider error: "@ + error_text@),
        retryable && attempt < PORTFOLIO_MAX_RETRIES ==> res == FetchNext::Retry(
            vstd::arithmetic::power2::pow2(attempt as nat) as u64,
        ),
        retryable && attempt == PORTFOLIO_MAX_RETRIES ==> (res matches FetchNext::Fail(m) && m@
            == "All retry attempts exhausted: "@ + error_text@),
{
    if !retryable {
        let mut m = owned("Provider error: ");
        push_str(&mut m, error_text);
        return FetchNext::Fail(m);
    }
    if attempt < PORTFOLIO_MAX_RETRIES {
        proof {
            vstd::arithmetic::power2::lemma2_to64();
        }
        let wait: u64 = if attempt == 0 {
            1
        } else if attempt == 1 {
            2
        } else {
            4
        };
        return FetchNext::Retry(wait);
    }
    let mut m = owned("All retry attempts exhausted: ");
    push_str(&mut m, error_text);
    FetchNext::Fail(m)
}

/// The transaction that brings an account's balance to its valuation.
#[derive(Debug, Clone)]
pub struct PortfolioAdjustment {
    /// The valuation less the balance
    pub delta: Decimal,
    pub title: String,
    pub notes: String,
}

/// The adjustment of an account with `balance` to the valuation `snapshot`.
pub fn portfolio_adjustment(snapshot: &PortfolioSnapshot, balance: &Decimal) -> (res: PortfolioAdjustment)
    requires
        difference_fits(snapshot.stock_value, *balance),
    ensures
        res.delta.scale == common_scale(snapshot.stock_value, *balance),
        res.delta.mantissa == aligned(snapshot.stock_value, res.delta.scale as int) - aligned(*balance, res.delta.scale as int),
        res.title@ == "Portfolio Value Adjustment"@,
        res.notes@ == "Automated portfolio sync: stock value "@ + decimal_text(
            snapshot.stock_value.mantissa as int,
            snapshot.stock_value.scale as int,
        ) + " (invested "@ + decimal_text(snapshot.invested_amount.mantissa as int, snapshot.invested_amount.scale as int)
            + ")"@,
{
    let delta = match crate::decimal::sub(&snapshot.stock_value, balance) {
        Some(d) => d,
        None => {
            assert(false);
            Decimal { mantissa: 0, scale: 0 }
        },
    };
    let mut notes = owned("Automated portfolio sync: stock value ");
    push_str(&mut notes, decimal_to_string(&snapshot.stock_value).as_str());
    push_str(&mut notes, " (invested ");
    push_str(&mut notes, decimal_to_string(&snapshot.invested_amount).as_str());
    push_str(&mut notes, ")");
    PortfolioAdjustment { delta, title: owned("Portfolio Value Adjustment"), notes }
}

pub open spec fn text_2dp(d: Decimal) -> Seq<char> {
    decimal_text_2dp(d.mantissa as int, d.scale as int)
}

/// The result of a synced account: the balance before, the valuation and
/// their difference with two decimals, and the adjustment transaction where
/// one was made ("synced"), or "no_change".
pub fn synced_account_result(
    account_id: u128,
    account_name: String,
    provider_type: InvestmentProviderType,
    balance: &Decimal,
    stock_value: &Decimal,
    delta: &Decimal,
    adjustment_transaction_id: Option<u128>,
) -> (res: AccountSyncResult)
    ensures
        res.account_id == account_id,
        res.account_name@ == account_name@,
        res.provider_type == provider_type,
        res.previous_balance@ == text_2dp(*balance),
        res.new_value@ == text_2dp(*stock_value),
        res.adjustment_amount@ == text_2dp(*delta),
        res.adjustment_transaction_id == adjustment_transaction_id,
        res.status@ == (if adjustment_transaction_id is Some { "synced"@ } else { "no_change"@ }),
        res.error is None,
{
    let status = if adjustment_transaction_id.is_some() {
        owned("synced")
    } else {
        owned("no_change")
    };
    AccountSyncResult {
        account_id,
        account_name,
        provider_type,
        previous_balance: decimal_to_string_2dp(balance),
        new_value: decimal_to_string_2dp(stock_value),
        adjustment_amount: decimal_to_string_2dp(delta),
        adjustment_transaction_id,
        status,
        error: None,
    }
}

/// The result of an account whose sync failed with `error`.
pub fn failed_account_result(account_id: u128, provider_type: InvestmentProviderType, error: String) -> (res: AccountSyncResult)
    ensures
        res.account_id == account_id,
        res.account_name@ == "Unknown"@,
        res.provider_type == provider_type,
        res.previous_balance@ == "0.00"@,
        res.new_value@ == "0.00"@,
        res.adjustment_amount@ == "0.00"@,
        res.adjustment_transaction_id is None,
        res.status@ == "failed"@,
        res.error == Some(error),
{
    AccountSyncResult {
        account_id,
        account_name: owned("Unknown"),
        provider_type,
        previous_balance: owned("0.00"),
        new_value: owned("0.00"),
        adjustment_amount: owned("0.00"),
        adjustment_transaction_id: None,
        status: owned("failed"),
        error: Some(error),
    }
}

/// The counts agree with the accounts reported.
pub open spec fn portfolio_report_consistent(r: PortfolioSyncReport) -> bool {
    &&& r.total_synced >= 0
    &&& r.total_failed >= 0
    &&& r.total_synced + r.total_failed == r.synced_accounts@.len()
}

/// An empty report.
pub fn new_portfolio_report() -> (res: PortfolioSyncReport)
    ensures
        res.synced_accounts@.len() == 0,
        res.total_synced == 0,
        res.total_failed == 0,
        portfolio_report_consistent(res),
{
    PortfolioSyncReport { synced_accounts: Vec::new(), total_synced: 0, total_failed: 0 }
}

/// Adds an account's result to the report, counting it as failed when its
/// status says so and as synced otherwise.
pub fn record_account_result(report: &mut PortfolioSyncReport, result: AccountSyncResult)
    requires
        portfolio_report_consistent(*old(report)),
        old(report).synced_accounts@.len() < i64::MAX,
    ensures
        portfolio_report_consistent(*final(report)),
        final(report).synced_accounts@ == old(report).synced_accounts@.push(result),
        result.status@ == "failed"@ ==> final(report).total_failed == old(report).total_failed + 1
            && final(report).total_synced == old(report).total_synced,
        result.status@ != "failed"@ ==> final(report).total_synced == old(report).total_synced + 1
            && final(report).total_failed == old(report).total_failed,
{
    if crate::text::str_eq(result.status.as_str(), "failed") {
        report.total_failed = report.total_failed + 1;
    } else {
        report.total_synced = report.total_synced + 1;
    }
    report.synced_accounts.push(result);
}

} // verus!
