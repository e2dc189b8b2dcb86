//! The transaction ledger: validation and atomic commit of commands.

use vstd::prelude::*;
use std::collections::HashMap;
use crate::account::{
    Account, ClientId, spec_new_account, spec_deposit, spec_withdraw, spec_dispute, spec_resolve,
    spec_chargeback,
};
use crate::errors::{LedgerError, UnlockError};
use crate::moneys::{Moneys, MoneyError};
use crate::records::{Command, CommandType, spec_get_moneys};

verus! {

broadcast use vstd::std_specs::hash::group_hash_axioms;

/// Identifies a transaction; once created it stays associated with one
/// client and one amount for the rest of the run.
pub type TransactionId = u32;

/// The dispute life-cycle of a deposit:
/// `Deposited <-> Disputed -> ChargedBack`, where resolving is the only
/// back-edge and a chargeback is terminal.
#[derive(Debug, Clone, Copy, PartialEq, Eq, Structural)]
pub enum DepositTransactionState {
    Deposited,
    Disputed,
    ChargedBack,
}

/// The ledger's record of a past transaction. Withdrawals are terminal
/// and never disputable; deposits carry their dispute state.
#[derive(Debug, Clone, Copy, PartialEq, Eq, Structural)]
pub enum Transaction {
    WithdrawTransaction { client: ClientId, amount: Moneys },
    DepositTransaction { client: ClientId, amount: Moneys, state: DepositTransactionState },
}

/// A recorded transaction holds a representable amount.
pub open spec fn txn_valid(t: Transaction) -> bool {
    match t {
        Transaction::WithdrawTransaction { client, amount } => amount.valid(),
        Transaction::DepositTransaction { client, amount, state } => amount.valid(),
    }
}

pub open spec fn opt_txn_valid(t: Option<Transaction>) -> bool {
    match t {
        Some(txn) => txn_valid(txn),
        None => true,
    }
}

/// The mathematical state of a processor: the two mappings it maintains,
/// and the clients in the order they were first seen.
pub struct LedgerView {
    pub accounts: Map<ClientId, Account>,
    pub transactions: Map<TransactionId, Transaction>,
    pub clients: Seq<ClientId>,
}

impl LedgerView {
    /// Every account is stored under its own client id with bounded
    /// balances, every transaction holds a representable amount, and the
    /// client list names each account holder exactly once.
    pub open spec fn wf(self) -> bool {
        &&& forall|c: ClientId| #[trigger]
            self.accounts.contains_key(c) ==> self.accounts[c].valid() && self.accounts[c].client
                == c
        &&& forall|t: TransactionId| #[trigger]
            self.transactions.contains_key(t) ==> txn_valid(self.transactions[t])
        &&& self.clients.no_duplicates()
        &&& forall|i: int|
            0 <= i < self.clients.len() ==> self.accounts.contains_key(#[trigger] self.clients[i])
        &&& forall|c: ClientId| #[trigger]
            self.accounts.contains_key(c) ==> self.clients.contains(c)
    }

    /// The account a command addresses: the stored one, or a fresh zero
    /// account on first sight of the client.
    pub open spec fn account_for(self, client: ClientId) -> Account {
        if self.accounts.contains_key(client) {
            self.accounts[client]
        } else {
            spec_new_account(client)
        }
    }

    /// The prior transaction a command references, if one exists.
    pub open spec fn txn_for(self, tx: TransactionId) -> Option<Transaction> {
        if self.transactions.contains_key(tx) {
            Some(self.transactions[tx])
        } else {
            None
        }
    }
}

/// How bounded-arithmetic failures surface at the command level.
pub open spec fn spec_money_err(e: MoneyError) -> LedgerError {
    match e {
        MoneyError::RangeOverflow => LedgerError::RangeOverflow,
        MoneyError::RangeUnderflow => LedgerError::RangeUnderflow,
    }
}

/// What `dispute_step` returns, stated as a value: the amount to move and
/// the advanced transaction record, or the exact reason the reference is
/// rejected. The account lock is checked by the caller before this.
pub open spec fn spec_dispute_step(
    account: Account,
    transaction: Option<Transaction>,
    expected_state: DepositTransactionState,
    next_state: DepositTransactionState,
) -> Result<(Moneys, Transaction), LedgerError> {
    match transaction {
        None => Err(LedgerError::TransactionNotFound),
        Some(Transaction::DepositTransaction { client, amount, state }) => {
            if client != account.client {
                Err(LedgerError::ClientMismatch)
            } else if state != expected_state {
                Err(LedgerError::WrongTransactionState)
            } else {
                Ok(
                    (
                        amount,
                        Transaction::DepositTransaction { client, amount, state: next_state },
                    ),
                )
            }
        },
        Some(Transaction::WithdrawTransaction { client, amount }) => Err(
            LedgerError::NotDisputable,
        ),
    }
}

/// What `apply_command` returns, stated as a value: the replacement
/// account and transaction record, or the exact reason the command is
/// rejected. A locked account rejects every command uniformly, before any
/// transaction record is consulted.
pub open spec fn spec_apply_command(
    cmd: Command,
    account: Account,
    transaction: Option<Transaction>,
) -> Result<(Account, Transaction), LedgerError> {
    if account.locked {
        Err(LedgerError::AccountLocked)
    } else {
        match cmd.command_type {
            CommandType::Withdrawal => {
                if transaction is Some {
                    Err(LedgerError::DuplicateTransaction)
                } else {
                    match spec_get_moneys(cmd.amount) {
                        Err(e) => Err(e),
                        Ok(m) => match spec_withdraw(account, m) {
                            Err(e) => Err(spec_money_err(e)),
                            Ok(na) => Ok(
                                (
                                    na,
                                    Transaction::WithdrawTransaction {
                                        client: account.client,
                                        amount: m,
                                    },
                                ),
                            ),
                        },
                    }
                }
            },
            CommandType::Deposit => {
                if transaction is Some {
                    Err(LedgerError::DuplicateTransaction)
                } else {
                    match spec_get_moneys(cmd.amount) {
                        Err(e) => Err(e),
                        Ok(m) => match spec_deposit(account, m) {
                            Err(e) => Err(spec_money_err(e)),
                            Ok(na) => Ok(
                                (
                                    na,
                                    Transaction::DepositTransaction {
                                        client: account.client,
                                        amount: m,
                                        state: DepositTransactionState::Deposited,
                                    },
                                ),
                            ),
                        },
                    }
                }
            },
            CommandType::Dispute => {
                match spec_dispute_step(
                    account,
                    transaction,
                    DepositTransactionState::Deposited,
                    DepositTransactionState::Disputed,
                ) {
                    Err(e) => Err(e),
                    Ok((m, nt)) => match spec_dispute(account, m) {
                        Err(e) => Err(spec_money_err(e)),
                        Ok(na) => Ok((na, nt)),
                    },
                }
            },
            CommandType::Resolve => {
                match spec_dispute_step(
                    account,
                    transaction,
                    DepositTransactionState::Disputed,
                    DepositTransactionState::Deposited,
                ) {
                    Err(e) => Err(e),
                    Ok((m, nt)) => match spec_resolve(account, m) {
                        Err(e) => Err(spec_money_err(e)),
                        Ok(na) => Ok((na, nt)),
                    },
                }
            },
            CommandType::Chargeback => {
                match spec_dispute_step(
                    account,
                    transaction,
                    DepositTransactionState::Disputed,
                    DepositTransactionState::ChargedBack,
                ) {
                    Err(e) => Err(e),
                    Ok((m, nt)) => match spec_chargeback(account, m) {
                        Err(e) => Err(spec_money_err(e)),
                        Ok(na) => Ok((na, nt)),
                    },
                }
            },
        }
    }
}

/// What `execute` does to the ledger, stated as a value: on success both
/// mappings take the replacement records; on any failure the ledger is
/// unchanged.
pub open spec fn spec_execute(v: LedgerView, cmd: Command) -> LedgerView {
    match spec_apply_command(cmd, v.account_for(cmd.client), v.txn_for(cmd.tx)) {
        Ok((na, nt)) => LedgerView {
            accounts: v.accounts.insert(cmd.client, na),
            transactions: v.transactions.insert(cmd.tx, nt),
            clients: if v.accounts.contains_key(cmd.client) {
                v.clients
            } else {
                v.clients.push(cmd.client)
            },
        },
        Err(e) => v,
    }
}

/// What `execute` returns, stated as a value.
pub open spec fn spec_execute_result(v: LedgerView, cmd: Command) -> Result<(), LedgerError> {
    match spec_apply_command(cmd, v.account_for(cmd.client), v.txn_for(cmd.tx)) {
        Ok(r) => Ok(()),
        Err(e) => Err(e),
    }
}

/// A locked account rejects every command uniformly with `AccountLocked`,
/// before any transaction record is consulted, and the ledger is left
/// untouched.
pub proof fn lemma_locked_account_rejects(v: LedgerView, cmd: Command)
    requires
        v.accounts.contains_key(cmd.client),
        v.accounts[cmd.client].locked,
    ensures
        spec_execute_result(v, cmd) == Err::<(), LedgerError>(LedgerError::AccountLocked),
        spec_execute(v, cmd) == v,
{
}

/// Disputing a withdrawal transaction fails with `NotDisputable`, whoever
/// the client is, and the ledger is left untouched.
pub proof fn lemma_dispute_withdrawal_rejected(v: LedgerView, cmd: Command)
    requires
        cmd.command_type == CommandType::Dispute,
        !v.account_for(cmd.client).locked,
        v.transactions.contains_key(cmd.tx),
        v.transactions[cmd.tx] is WithdrawTransaction,
    ensures
        spec_execute_result(v, cmd) == Err::<(), LedgerError>(LedgerError::NotDisputable),
        spec_execute(v, cmd) == v,
{
}

/// Disputing a transaction id the ledger has never seen fails with
/// `TransactionNotFound` and leaves every account unchanged.
pub proof fn lemma_dispute_unknown_rejected(v: LedgerView, cmd: Command)
    requires
        cmd.command_type == CommandType::Dispute,
        !v.account_for(cmd.client).locked,
        !v.transactions.contains_key(cmd.tx),
    ensures
        spec_execute_result(v, cmd) == Err::<(), LedgerError>(LedgerError::TransactionNotFound),
        spec_execute(v, cmd) == v,
{
}

/// The ledger processor: one account per client seen, one record per
/// transaction id created.
#[derive(Debug, Clone)]
pub struct Processor {
    pub accounts: HashMap<ClientId, Account>,
    pub transactions: HashMap<TransactionId, Transaction>,
    pub clients: Vec<ClientId>,
}

impl View for Processor {
    type V = LedgerView;

    open spec fn view(&self) -> LedgerView {
        LedgerView {
            accounts: self.accounts@,
            transactions: self.transactions@,
            clients: self.clients@,
        }
    }
}

impl Default for Processor {
    /// An empty ledger: no accounts, no transactions.
    fn default() -> (r: Self)
        ensures
            r@.accounts == Map::<ClientId, Account>::empty(),
            r@.transactions == Map::<TransactionId, Transaction>::empty(),
            r@.clients == Seq::<ClientId>::empty(),
            r@.wf(),
    {
        Processor {
            accounts: HashMap::new(),
            transactions: HashMap::new(),
            clients: Vec::new(),
        }
    }
}

fn money_err(e: MoneyError) -> (r: LedgerError)
    ensures
        r == spec_money_err(e),
{
    match e {
        MoneyError::RangeOverflow => LedgerError::RangeOverflow,
        MoneyError::RangeUnderflow => LedgerError::RangeUnderflow,
    }
}

impl Processor {
    /// Validates a dispute, resolve or chargeback against the referenced
    /// transaction record and advances the record's state.
    fn dispute_step(
        account: &Account,
        transaction: Option<Transaction>,
        expected_state: DepositTransactionState,
        next_state: DepositTransactionState,
    ) -> (r: Result<(Moneys, Transaction), LedgerError>)
        ensures
            r == spec_dispute_step(*account, transaction, expected_state, next_state),
    {
        match transaction {
            None => Err(LedgerError::TransactionNotFound),
            Some(Transaction::DepositTransaction { client, amount, state }) => {
                if client != account.client {
                    return Err(LedgerError::ClientMismatch);
                }
                if state != expected_state {
                    return Err(LedgerError::WrongTransactionState);
                }
                Ok((amount, Transaction::DepositTransaction { client, amount, state: next_state }))
            },
            Some(Transaction::WithdrawTransaction { client, amount }) => Err(
                LedgerError::NotDisputable,
            ),
        }
    }

    /// Applies a command to the resolved account and transaction record
    /// without touching stored state: the caller commits the result only
    /// on success.
    fn apply_command(
        command: &Command,
        account: Account,
        transaction: Option<Transaction>,
    ) -> (r: Result<(Account, Transaction), LedgerError>)
        requires
            account.valid(),
            command.valid(),
            opt_txn_valid(transaction),
        ensures
            r == spec_apply_command(*command, account, transaction),
    {
        if account.is_locked() {
            return Err(LedgerError::AccountLocked);
        }
        match command.command_type {
            CommandType::Withdrawal => {
                if transaction.is_some() {
                    return Err(LedgerError::DuplicateTransaction);
                }
                let moneys = command.get_moneys()?;
                match account.withdraw(moneys) {
                    Err(e) => Err(money_err(e)),
                    Ok(new_account) => Ok(
                        (
                            new_account,
                            Transaction::WithdrawTransaction {
                                client: account.client,
                                amount: moneys,
                            },
                        ),
                    ),
                }
            },
            CommandType::Deposit => {
                if transaction.is_some() {
                    return Err(LedgerError::DuplicateTransaction);
                }
                let moneys = command.get_moneys()?;
                match account.deposit(moneys) {
                    Err(e) => Err(money_err(e)),
                    Ok(new_account) => Ok(
                        (
                            new_account,
                            Transaction::DepositTransaction {
                                client: account.client,
                                amount: moneys,
                                state: DepositTransactionState::Deposited,
                            },
                        ),
                    ),
                }
            },
            CommandType::Dispute => {
                let (moneys, new_transaction) = Self::dispute_step(
                    &account,
                    transaction,
                    DepositTransactionState::Deposited,
                    DepositTransactionState::Disputed,
                )?;
                match account.dispute(moneys) {
                    Err(e) => Err(money_err(e)),
                    Ok(new_account) => Ok((new_account, new_transaction)),
                }
            },
            CommandType::Resolve => {
                let (moneys, new_transaction) = Self::dispute_step(
                    &account,
                    transaction,
                    DepositTransactionState::Disputed,
                    DepositTransactionState::Deposited,
                )?;
                match account.resolve(moneys) {
                    Err(e) => Err(money_err(e)),
                    Ok(new_account) => Ok((new_account, new_transaction)),
                }
            },
            CommandType::Chargeback => {
                let (moneys, new_transaction) = Self::dispute_step(
                    &account,
                    transaction,
                    DepositTransactionState::Disputed,
                    DepositTransactionState::ChargedBack,
                )?;
                match account.chargeback(moneys) {
                    Err(e) => Err(money_err(e)),
                    Ok(new_account) => Ok((new_account, new_transaction)),
                }
            },
        }
    }

    /// Runs one command against the ledger. The full replacement pair is
    /// computed before anything is stored, so a failed command leaves
    /// both mappings exactly as they were.
    pub fn execute(&mut self, command: &Command) -> (r: Result<(), LedgerError>)
        requires
            old(self)@.wf(),
            command.valid(),
        ensures
            final(self)@ == spec_execute(old(self)@, *command),
            r == spec_execute_result(old(self)@, *command),
            final(self)@.wf(),
    {
        let account = match self.accounts.get(&command.client) {
            Some(a) => *a,
            None => Account::new(command.client),
        };
        let transaction = match self.transactions.get(&command.tx) {
            Some(t) => Some(*t),
            None => None,
        };
        let (new_account, new_transaction) = Self::apply_command(command, account, transaction)?;
        if !self.accounts.contains_key(&command.client) {
            self.clients.push(command.client);
        }
        self.accounts.insert(command.client, new_account);
        self.transactions.insert(command.tx, new_transaction);
        proof {
            let oldv = old(self)@;
            let newv = self@;
            if !oldv.accounts.contains_key(command.client) {
                assert(!oldv.clients.contains(command.client)) by {
                    if oldv.clients.contains(command.client) {
                        let i = choose|i: int|
                            0 <= i < oldv.clients.len() && oldv.clients[i] == command.client;
                        assert(oldv.accounts.contains_key(oldv.clients[i]));
                    }
                }
            }
            assert forall|c: ClientId| #[trigger]
                newv.accounts.contains_key(c) implies newv.clients.contains(c) by {
                if c == command.client {
                    if oldv.accounts.contains_key(c) {
                        let i = choose|i: int|
                            0 <= i < oldv.clients.len() && oldv.clients[i] == c;
                        assert(newv.clients[i] == c);
                    } else {
                        assert(newv.clients[newv.clients.len() - 1] == c);
                    }
                } else {
                    let i = choose|i: int| 0 <= i < oldv.clients.len() && oldv.clients[i] == c;
                    assert(newv.clients[i] == c);
                }
            }
        }
        Ok(())
    }

    /// A snapshot of every account ever created, one entry per client in
    /// the order the clients were first seen, each with the stored
    /// balances.
    pub fn accounts(&self) -> (r: Vec<Account>)
        requires
            self@.wf(),
        ensures
            r@.len() == self@.clients.len(),
            forall|i: int|
                0 <= i < r@.len() ==> #[trigger] r@[i] == self@.accounts[self@.clients[i]]
                    && r@[i].client == self@.clients[i],
            forall|c: ClientId| #[trigger]
                self@.accounts.contains_key(c) ==> exists|i: int|
                    0 <= i < r@.len() && #[trigger] r@[i].client == c,
    {
        let mut out: Vec<Account> = Vec::new();
        let n = self.clients.len();
        let mut idx: usize = 0;
        while idx < n
            invariant
                idx <= n,
                n == self.clients@.len(),
                self@.wf(),
                out@.len() == idx,
                forall|i: int|
                    0 <= i < out@.len() ==> #[trigger] out@[i]
                        == self@.accounts[self@.clients[i]] && out@[i].client == self@.clients[i],
            decreases n - idx,
        {
            let c = self.clients[idx];
            match self.accounts.get(&c) {
                Some(account) => out.push(*account),
                None => {
                    proof {
                        assert(self@.accounts.contains_key(self@.clients[idx as int]));
                    }
                    unreached()
                },
            }
            idx = idx + 1;
        }
        proof {
            assert forall|c: ClientId| #[trigger]
                self@.accounts.contains_key(c) implies exists|i: int|
                0 <= i < out@.len() && #[trigger] out@[i].client == c by {
                let i = choose|i: int| 0 <= i < self@.clients.len() && self@.clients[i] == c;
                assert(out@[i].client == c);
            }
        }
        out
    }

    /// Administrative unlock of a locked account; fails when the client
    /// is unknown or the account is not locked, and then changes nothing.
    pub fn unlock(&mut self, client: ClientId) -> (r: Result<(), UnlockError>)
        requires
            old(self)@.wf(),
        ensures
            final(self)@.wf(),
            match r {
                Ok(u) => old(self)@.accounts.contains_key(client)
                    && old(self)@.accounts[client].locked && final(self)@ == (LedgerView {
                    accounts: old(self)@.accounts.insert(
                        client,
                        (Account { locked: false, ..old(self)@.accounts[client] }),
                    ),
                    transactions: old(self)@.transactions,
                    clients: old(self)@.clients,
                }),
                Err(UnlockError::ClientNotFound) => !old(self)@.accounts.contains_key(client)
                    && *final(self) == *old(self),
                Err(UnlockError::AccountNotLocked) => old(self)@.accounts.contains_key(client)
                    && !old(self)@.accounts[client].locked && *final(self) == *old(self),
            },
    {
        let account = match self.accounts.get(&client) {
            None => {
                return Err(UnlockError::ClientNotFound);
            },
            Some(a) => *a,
        };
        if !account.is_locked() {
            return Err(UnlockError::AccountNotLocked);
        }
        let mut unlocked = account;
        unlocked.unlock();
        self.accounts.insert(client, unlocked);
        Ok(())
    }
}

} // verus!
