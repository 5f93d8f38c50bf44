//! Brokerages the user's investment accounts are valued from.
pub mod trading212;
pub mod types;
