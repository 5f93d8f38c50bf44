pub mod superjson;
pub mod types;
pub mod splitpro;
pub mod splitwise;
