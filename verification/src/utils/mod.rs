pub mod cron;
pub mod encryption;
pub mod oauth_state;
