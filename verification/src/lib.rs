//! A deterministic ledger-replay engine: fixed-point money values, pure
//! account balance transitions, and a transaction processor that validates
//! each command against prior ledger state before committing it.

pub mod account;
pub mod errors;
pub mod moneys;
pub mod processor;
pub mod records;
pub mod runner;

pub use account::Account;
pub use account::ClientId;
pub use moneys::Moneys;
pub use moneys::MAX_UNITS;
pub use processor::Processor;
pub use processor::TransactionId;
pub use runner::render_accounts;
pub use runner::run_processor;
