//! Per-client account balances and their pure state transitions.

use vstd::prelude::*;
use crate::moneys::{Moneys, MoneyError, MAX_UNITS};

verus! {

/// Identifies an account holder.
pub type ClientId = u16;

/// The balance record of one client: funds at hand, funds held under
/// dispute, and whether a chargeback has frozen the account.
///
/// Every operation reads `self` and returns a fresh value; nothing is
/// mutated in place, so a failed command can simply drop the result.
#[derive(Debug, Clone, Copy, PartialEq, Eq, Structural)]
pub struct Account {
    pub client: ClientId,
    pub available: Moneys,
    pub held: Moneys,
    pub locked: bool,
}

/// What `Account::new` returns, stated as a value.
pub open spec fn spec_new_account(client: ClientId) -> Account {
    Account { client, available: Moneys(0), held: Moneys(0), locked: false }
}

/// What `Account::deposit` returns, stated as a value.
pub open spec fn spec_deposit(a: Account, amount: Moneys) -> Result<Account, MoneyError> {
    if a.available.0 + amount.0 <= MAX_UNITS {
        Ok(Account { available: Moneys((a.available.0 + amount.0) as u64), ..a })
    } else {
        Err(MoneyError::RangeOverflow)
    }
}

/// What `Account::withdraw` returns, stated as a value.
pub open spec fn spec_withdraw(a: Account, amount: Moneys) -> Result<Account, MoneyError> {
    if a.available.0 >= amount.0 {
        Ok(Account { available: Moneys((a.available.0 - amount.0) as u64), ..a })
    } else {
        Err(MoneyError::RangeUnderflow)
    }
}

/// What `Account::dispute` returns, stated as a value.
pub open spec fn spec_dispute(a: Account, amount: Moneys) -> Result<Account, MoneyError> {
    if a.available.0 < amount.0 {
        Err(MoneyError::RangeUnderflow)
    } else if a.held.0 + amount.0 > MAX_UNITS {
        Err(MoneyError::RangeOverflow)
    } else {
        Ok(Account {
            available: Moneys((a.available.0 - amount.0) as u64),
            held: Moneys((a.held.0 + amount.0) as u64),
            ..a
        })
    }
}

/// What `Account::resolve` returns, stated as a value.
pub open spec fn spec_resolve(a: Account, amount: Moneys) -> Result<Account, MoneyError> {
    if a.available.0 + amount.0 > MAX_UNITS {
        Err(MoneyError::RangeOverflow)
    } else if a.held.0 < amount.0 {
        Err(MoneyError::RangeUnderflow)
    } else {
        Ok(Account {
            available: Moneys((a.available.0 + amount.0) as u64),
            held: Moneys((a.held.0 - amount.0) as u64),
            ..a
        })
    }
}

/// What `Account::chargeback` returns, stated as a value.
pub open spec fn spec_chargeback(a: Account, amount: Moneys) -> Result<Account, MoneyError> {
    if a.held.0 < amount.0 {
        Err(MoneyError::RangeUnderflow)
    } else {
        Ok(Account { held: Moneys((a.held.0 - amount.0) as u64), locked: true, ..a })
    }
}

impl Account {
    /// Both balances stay inside the representable money range.
    pub open spec fn valid(self) -> bool {
        self.available.valid() && self.held.valid()
    }

    /// A fresh account: zero balances, unlocked.
    pub fn new(client: ClientId) -> (r: Self)
        ensures
            r == spec_new_account(client),
    {
        Account { client, available: Moneys(0), held: Moneys(0), locked: false }
    }

    pub fn client(&self) -> (r: ClientId)
        ensures
            r == self.client,
    {
        self.client
    }

    pub fn is_locked(&self) -> (r: bool)
        ensures
            r == self.locked,
    {
        self.locked
    }

    /// Administrative unlock; not reachable through command processing.
    pub fn unlock(&mut self)
        ensures
            *final(self) == (Account { locked: false, ..*old(self) }),
    {
        self.locked = false;
    }

    /// Adds `amount` to the available balance; fails with `RangeOverflow`
    /// when the sum would leave the representable range.
    pub fn deposit(&self, amount: Moneys) -> (r: Result<Self, MoneyError>)
        requires
            self.available.valid(),
            amount.valid(),
        ensures
            r == spec_deposit(*self, amount),
    {
        let new_available = self.available.add(amount)?;
        Ok(Account { available: new_available, ..*self })
    }

    /// Removes `amount` from the available balance; fails with
    /// `RangeUnderflow` when the funds are insufficient.
    pub fn withdraw(&self, amount: Moneys) -> (r: Result<Self, MoneyError>)
        ensures
            r == spec_withdraw(*self, amount),
    {
        let new_available = self.available.sub(amount)?;
        Ok(Account { available: new_available, ..*self })
    }

    /// Moves `amount` from available to held; fails with `RangeUnderflow`
    /// when the available funds do not cover it (they may have been
    /// withdrawn since the disputed deposit).
    pub fn dispute(&self, amount: Moneys) -> (r: Result<Self, MoneyError>)
        requires
            self.held.valid(),
            amount.valid(),
        ensures
            r == spec_dispute(*self, amount),
    {
        let new_available = self.available.sub(amount)?;
        let new_held = self.held.add(amount)?;
        Ok(Account { available: new_available, held: new_held, ..*self })
    }

    /// Moves `amount` back from held to available; fails with
    /// `RangeUnderflow` when the held funds do not cover it.
    pub fn resolve(&self, amount: Moneys) -> (r: Result<Self, MoneyError>)
        requires
            self.available.valid(),
            amount.valid(),
        ensures
            r == spec_resolve(*self, amount),
    {
        let new_available = self.available.add(amount)?;
        let new_held = self.held.sub(amount)?;
        Ok(Account { available: new_available, held: new_held, ..*self })
    }

    /// Removes `amount` from the held balance and locks the account for
    /// good; fails with `RangeUnderflow` when the held funds do not
    /// cover it.
    pub fn chargeback(&self, amount: Moneys) -> (r: Result<Self, MoneyError>)
        ensures
            r == spec_chargeback(*self, amount),
    {
        let new_held = self.held.sub(amount)?;
        Ok(Account { held: new_held, locked: true, ..*self })
    }
}

/// Resolving a dispute restores the account exactly as it stood after the
/// disputed deposit: for any valid account and in-range amount, depositing,
/// disputing and then resolving the same amount ends where the deposit
/// alone ended.
pub proof fn lemma_dispute_resolve_round_trip(a: Account, d: Moneys)
    requires
        a.valid(),
        d.valid(),
        a.available.0 + d.0 <= MAX_UNITS,
        a.held.0 + d.0 <= MAX_UNITS,
    ensures
        spec_deposit(a, d) is Ok,
        spec_dispute(spec_deposit(a, d)->Ok_0, d) is Ok,
        spec_resolve(spec_dispute(spec_deposit(a, d)->Ok_0, d)->Ok_0, d) == spec_deposit(a, d),
{
}

/// A chargeback of a disputed amount takes exactly that amount out of the
/// held balance and locks the account; the available balance is untouched.
pub proof fn lemma_chargeback_zeroes_held(a: Account, d: Moneys)
    requires
        a.valid(),
        d.valid(),
        a.held.0 + d.0 <= MAX_UNITS,
        a.available.0 >= d.0,
    ensures
        spec_dispute(a, d) is Ok,
        spec_chargeback(spec_dispute(a, d)->Ok_0, d) == Ok::<Account, MoneyError>(
            Account {
                available: Moneys((a.available.0 - d.0) as u64),
                held: a.held,
                locked: true,
                ..a
            },
        ),
{
}

} // verus!
