pub mod truelayer;
pub mod types;
