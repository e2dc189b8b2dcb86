//! Failure taxonomy of the ledger.
//!
//! Two tiers: a `RecordError` marks a structurally malformed input record
//! and aborts a whole run, while a `LedgerError` marks a well-formed but
//! semantically invalid command, which is skipped without touching any
//! ledger state.

use vstd::prelude::*;

verus! {

/// A command-level failure. Each variant names exactly one cause, so a
/// caller can tell why a command was rejected.
#[derive(Debug, Clone, Copy, PartialEq, Eq, Structural)]
pub enum LedgerError {
    /// A money sum left the representable range.
    RangeOverflow,
    /// A money difference would have been negative.
    RangeUnderflow,
    /// A deposit or withdrawal amount was negative.
    NegativeValue,
    /// A deposit or withdrawal carried no amount.
    MissingAmount,
    /// The account has been locked by a chargeback.
    AccountLocked,
    /// A deposit or withdrawal reused an existing transaction id.
    DuplicateTransaction,
    /// A dispute, resolve or chargeback named an unknown transaction id.
    TransactionNotFound,
    /// The referenced transaction belongs to a different client.
    ClientMismatch,
    /// The referenced deposit is not in the state the command expects.
    WrongTransactionState,
    /// The referenced transaction is a withdrawal, which is never
    /// disputable.
    NotDisputable,
}

/// A stream-level failure: the record cannot be read as a command at all.
/// Any of these aborts the run before any output is produced.
#[derive(Debug, Clone, Copy, PartialEq, Eq, Structural)]
pub enum RecordError {
    /// A required cell (type, client or tx) is absent from the record.
    MissingField,
    /// The type cell names no known command.
    BadCommandType,
    /// The client cell is not a client identifier.
    BadClient,
    /// The tx cell is not a transaction identifier.
    BadTransactionId,
    /// The amount cell is present but is not a decimal number.
    BadAmount,
}

/// Failures of reading a decimal money amount on its own.
#[derive(Debug, Clone, Copy, PartialEq, Eq, Structural)]
pub enum MoneyParseError {
    /// The text is not a decimal number.
    Malformed,
    /// The amount rounds to a negative value.
    NegativeValue,
    /// The amount rounds past the representable range.
    RangeOverflow,
}

/// Failures of the administrative unlock, which is not reachable through
/// normal command processing.
#[derive(Debug, Clone, Copy, PartialEq, Eq, Structural)]
pub enum UnlockError {
    /// No account exists for the client.
    ClientNotFound,
    /// The account is not locked.
    AccountNotLocked,
}

} // verus!
