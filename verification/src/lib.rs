//! Core logic of the Master of Coin personal finance backend: enumerations,
//! amount handling, statement parsing, duplicate detection, drift detection
//! and the split-provider wire formats.

pub mod decimal;
pub mod errors;
pub mod json;
pub mod models;
pub mod selection;
pub mod services;
pub mod text;
pub mod time;
pub mod types;
pub mod url;
pub mod utils;
pub mod version;
