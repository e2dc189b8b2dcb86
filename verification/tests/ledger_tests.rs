use transaction_processor::errors::{LedgerError, UnlockError};
use transaction_processor::records::{Amount, Command, CommandType};
use transaction_processor::{Account, Moneys, Processor};

fn cmd(command_type: CommandType, client: u16, tx: u32, units: Option<u64>) -> Command {
    Command {
        command_type,
        client,
        tx,
        amount: units.map(Amount::Units),
    }
}

fn deposit(client: u16, tx: u32, units: u64) -> Command {
    cmd(CommandType::Deposit, client, tx, Some(units))
}

fn withdrawal(client: u16, tx: u32, units: u64) -> Command {
    cmd(CommandType::Withdrawal, client, tx, Some(units))
}

fn dispute(client: u16, tx: u32) -> Command {
    cmd(CommandType::Dispute, client, tx, None)
}

fn resolve(client: u16, tx: u32) -> Command {
    cmd(CommandType::Resolve, client, tx, None)
}

fn chargeback(client: u16, tx: u32) -> Command {
    cmd(CommandType::Chargeback, client, tx, None)
}

fn account(client: u16, available: u64, held: u64, locked: bool) -> Account {
    Account {
        client,
        available: Moneys::new(available),
        held: Moneys::new(held),
        locked,
    }
}

#[test]
fn deposit_dispute_resolve_restores_state() {
    let mut p = Processor::default();
    assert_eq!(p.execute(&deposit(1, 1, 50_000)), Ok(()));
    let after_deposit = p.accounts();
    assert_eq!(p.execute(&dispute(1, 1)), Ok(()));
    assert_eq!(p.accounts(), vec![account(1, 0, 50_000, false)]);
    assert_eq!(p.execute(&resolve(1, 1)), Ok(()));
    assert_eq!(p.accounts(), after_deposit);
    assert_eq!(p.accounts(), vec![account(1, 50_000, 0, false)]);
}

#[test]
fn chargeback_zeroes_held_and_locks() {
    let mut p = Processor::default();
    assert_eq!(p.execute(&deposit(2, 4, 100_000)), Ok(()));
    assert_eq!(p.execute(&dispute(2, 4)), Ok(()));
    assert_eq!(p.accounts(), vec![account(2, 0, 100_000, false)]);
    assert_eq!(p.execute(&chargeback(2, 4)), Ok(()));
    assert_eq!(p.accounts(), vec![account(2, 0, 0, true)]);

    // every later command against the locked account is rejected and
    // changes nothing
    assert_eq!(p.execute(&deposit(2, 5, 10_000)), Err(LedgerError::AccountLocked));
    assert_eq!(p.execute(&withdrawal(2, 6, 1)), Err(LedgerError::AccountLocked));
    assert_eq!(p.execute(&dispute(2, 4)), Err(LedgerError::AccountLocked));
    assert_eq!(p.execute(&resolve(2, 4)), Err(LedgerError::AccountLocked));
    assert_eq!(p.execute(&chargeback(2, 4)), Err(LedgerError::AccountLocked));
    assert_eq!(p.accounts(), vec![account(2, 0, 0, true)]);
}

#[test]
fn dispute_of_withdrawal_is_not_disputable() {
    let mut p = Processor::default();
    assert_eq!(p.execute(&deposit(1, 1, 50_000)), Ok(()));
    assert_eq!(p.execute(&withdrawal(1, 2, 20_000)), Ok(()));
    assert_eq!(p.execute(&dispute(1, 2)), Err(LedgerError::NotDisputable));
    assert_eq!(p.accounts(), vec![account(1, 30_000, 0, false)]);
}

#[test]
fn dispute_of_unknown_transaction_is_not_found() {
    let mut p = Processor::default();
    assert_eq!(p.execute(&deposit(1, 1, 50_000)), Ok(()));
    assert_eq!(p.execute(&dispute(1, 99)), Err(LedgerError::TransactionNotFound));
    assert_eq!(p.accounts(), vec![account(1, 50_000, 0, false)]);
}

#[test]
fn duplicate_transaction_ids_are_rejected() {
    let mut p = Processor::default();
    assert_eq!(p.execute(&deposit(1, 1, 50_000)), Ok(()));
    assert_eq!(p.execute(&deposit(1, 1, 50_000)), Err(LedgerError::DuplicateTransaction));
    assert_eq!(p.execute(&withdrawal(1, 1, 1)), Err(LedgerError::DuplicateTransaction));
    assert_eq!(p.accounts(), vec![account(1, 50_000, 0, false)]);
}

#[test]
fn amount_failures_are_told_apart() {
    let mut p = Processor::default();
    assert_eq!(
        p.execute(&cmd(CommandType::Deposit, 1, 1, None)),
        Err(LedgerError::MissingAmount)
    );
    assert_eq!(
        p.execute(&Command {
            command_type: CommandType::Deposit,
            client: 1,
            tx: 1,
            amount: Some(Amount::Negative),
        }),
        Err(LedgerError::NegativeValue)
    );
    assert_eq!(
        p.execute(&Command {
            command_type: CommandType::Withdrawal,
            client: 1,
            tx: 1,
            amount: Some(Amount::TooBig),
        }),
        Err(LedgerError::RangeOverflow)
    );
    // nothing was committed, not even a fresh zero account
    assert_eq!(p.accounts(), Vec::new());
}

#[test]
fn insufficient_funds_underflow() {
    let mut p = Processor::default();
    assert_eq!(p.execute(&deposit(1, 1, 10_000)), Ok(()));
    assert_eq!(p.execute(&withdrawal(1, 2, 10_001)), Err(LedgerError::RangeUnderflow));
    assert_eq!(p.accounts(), vec![account(1, 10_000, 0, false)]);
}

#[test]
fn deposit_overflow() {
    let mut p = Processor::default();
    assert_eq!(p.execute(&deposit(1, 1, 100_000_000_000_000)), Ok(()));
    assert_eq!(p.execute(&deposit(1, 2, 1)), Err(LedgerError::RangeOverflow));
    assert_eq!(
        p.accounts(),
        vec![account(1, 100_000_000_000_000, 0, false)]
    );
}

#[test]
fn dispute_client_mismatch() {
    let mut p = Processor::default();
    assert_eq!(p.execute(&deposit(1, 1, 50_000)), Ok(()));
    assert_eq!(p.execute(&dispute(2, 1)), Err(LedgerError::ClientMismatch));
    // the failed command committed nothing, not even the fresh account
    assert_eq!(p.accounts(), vec![account(1, 50_000, 0, false)]);
}

#[test]
fn dispute_wrong_state() {
    let mut p = Processor::default();
    assert_eq!(p.execute(&deposit(1, 1, 50_000)), Ok(()));
    // resolving an undisputed deposit is in the wrong state
    assert_eq!(p.execute(&resolve(1, 1)), Err(LedgerError::WrongTransactionState));
    assert_eq!(p.execute(&chargeback(1, 1)), Err(LedgerError::WrongTransactionState));
    assert_eq!(p.execute(&dispute(1, 1)), Ok(()));
    // disputing twice is in the wrong state too
    assert_eq!(p.execute(&dispute(1, 1)), Err(LedgerError::WrongTransactionState));
}

#[test]
fn dispute_after_withdrawal_underflows() {
    let mut p = Processor::default();
    assert_eq!(p.execute(&deposit(1, 1, 50_000)), Ok(()));
    assert_eq!(p.execute(&withdrawal(1, 2, 40_000)), Ok(()));
    // the deposited funds are mostly gone, so holding them must fail
    assert_eq!(p.execute(&dispute(1, 1)), Err(LedgerError::RangeUnderflow));
    assert_eq!(p.accounts(), vec![account(1, 10_000, 0, false)]);
}

#[test]
fn unlock_errors_and_success() {
    let mut p = Processor::default();
    assert_eq!(p.unlock(7), Err(UnlockError::ClientNotFound));
    assert_eq!(p.execute(&deposit(7, 1, 50_000)), Ok(()));
    assert_eq!(p.unlock(7), Err(UnlockError::AccountNotLocked));
    assert_eq!(p.execute(&dispute(7, 1)), Ok(()));
    assert_eq!(p.execute(&chargeback(7, 1)), Ok(()));
    assert_eq!(p.accounts(), vec![account(7, 0, 0, true)]);
    assert_eq!(p.unlock(7), Ok(()));
    assert_eq!(p.accounts(), vec![account(7, 0, 0, false)]);
}

#[test]
fn accounts_keep_first_seen_order() {
    let mut p = Processor::default();
    assert_eq!(p.execute(&deposit(5, 1, 10_000)), Ok(()));
    assert_eq!(p.execute(&deposit(3, 2, 20_000)), Ok(()));
    assert_eq!(p.execute(&deposit(5, 3, 1)), Ok(()));
    assert_eq!(
        p.accounts(),
        vec![account(5, 10_001, 0, false), account(3, 20_000, 0, false)]
    );
}
