//! Per-client account balances and the low-level operations on them.
//!
//! An `Account` is a pure balance-arithmetic unit: it knows nothing of
//! transaction history. The five mutating operations here are the only
//! legal mutation surface; every higher-level rule lives in the ledger.

use vstd::prelude::*;

use crate::money::Money;

verus! {

/// Failure of a single low-level account operation.
#[derive(Debug, Clone, Copy)]
pub enum AccountError {
    /// The account is locked after a chargeback; it rejects every mutation.
    AccountLocked,
    /// The operation asked for more than the relevant balance holds.
    NotEnoughFunds { available: Money, required: Money },
    /// A deposit or withdrawal carried a negative amount.
    NegativeAmount { amount: Money },
    /// Applying the amount would push the balances outside the
    /// representable range.
    BalanceOverflow { amount: Money },
}

/// Mathematical image of an `AccountError`: amounts become integers.
pub enum AccountErrorV {
    AccountLocked,
    NotEnoughFunds { available: int, required: int },
    NegativeAmount { amount: int },
    BalanceOverflow { amount: int },
}

impl View for AccountError {
    type V = AccountErrorV;

    open spec fn view(&self) -> AccountErrorV {
        match *self {
            AccountError::AccountLocked => AccountErrorV::AccountLocked,
            AccountError::NotEnoughFunds { available, required } => AccountErrorV::NotEnoughFunds {
                available: available@,
                required: required@,
            },
            AccountError::NegativeAmount { amount } => AccountErrorV::NegativeAmount {
                amount: amount@,
            },
            AccountError::BalanceOverflow { amount } => AccountErrorV::BalanceOverflow {
                amount: amount@,
            },
        }
    }
}

/// Mathematical image of an `Account`.
pub struct AccountV {
    pub available: int,
    pub held: int,
    pub locked: bool,
}

impl AccountV {
    /// The state of a freshly created account.
    pub open spec fn initial() -> AccountV {
        AccountV { available: 0, held: 0, locked: false }
    }

    /// Both balances are non-negative and their sum stays representable.
    pub open spec fn inv(self) -> bool {
        &&& 0 <= self.available
        &&& 0 <= self.held
        &&& self.available + self.held <= i128::MAX
    }
}

/// What `Account::deposit` decides and changes.
pub open spec fn spec_deposit(a: AccountV, amount: int) -> (AccountV, Result<(), AccountErrorV>) {
    if a.locked {
        (a, Err(AccountErrorV::AccountLocked))
    } else if amount < 0 {
        (a, Err(AccountErrorV::NegativeAmount { amount }))
    } else if a.available + a.held + amount > i128::MAX {
        (a, Err(AccountErrorV::BalanceOverflow { amount }))
    } else {
        (AccountV { available: a.available + amount, ..a }, Ok(()))
    }
}

/// What `Account::withdraw` decides and changes.
pub open spec fn spec_withdraw(a: AccountV, amount: int) -> (AccountV, Result<(), AccountErrorV>) {
    if a.locked {
        (a, Err(AccountErrorV::AccountLocked))
    } else if amount < 0 {
        (a, Err(AccountErrorV::NegativeAmount { amount }))
    } else if amount > a.available {
        (a, Err(AccountErrorV::NotEnoughFunds { available: a.available, required: amount }))
    } else {
        (AccountV { available: a.available - amount, ..a }, Ok(()))
    }
}

/// What `Account::lock_funds` decides and changes.
pub open spec fn spec_lock_funds(a: AccountV, amount: int) -> (
    AccountV,
    Result<(), AccountErrorV>,
) {
    if a.locked {
        (a, Err(AccountErrorV::AccountLocked))
    } else if amount > a.available {
        (a, Err(AccountErrorV::NotEnoughFunds { available: a.available, required: amount }))
    } else {
        (AccountV { available: a.available - amount, held: a.held + amount, ..a }, Ok(()))
    }
}

/// What `Account::release_funds` decides and changes.
pub open spec fn spec_release_funds(a: AccountV, amount: int) -> (
    AccountV,
    Result<(), AccountErrorV>,
) {
    if a.locked {
        (a, Err(AccountErrorV::AccountLocked))
    } else if amount > a.held {
        (a, Err(AccountErrorV::NotEnoughFunds { available: a.held, required: amount }))
    } else {
        (AccountV { available: a.available + amount, held: a.held - amount, ..a }, Ok(()))
    }
}

/// What `Account::chargeback_funds` decides and changes.
pub open spec fn spec_chargeback_funds(a: AccountV, amount: int) -> (
    AccountV,
    Result<(), AccountErrorV>,
) {
    if a.locked {
        (a, Err(AccountErrorV::AccountLocked))
    } else if amount > a.held {
        (a, Err(AccountErrorV::NotEnoughFunds { available: a.held, required: amount }))
    } else {
        (AccountV { held: a.held - amount, locked: true, ..a }, Ok(()))
    }
}

/// Mathematical image of an account operation's result.
pub open spec fn account_result_view(r: Result<(), AccountError>) -> Result<(), AccountErrorV> {
    match r {
        Ok(_) => Ok(()),
        Err(e) => Err(e@),
    }
}

/// A client's account: funds free to withdraw, funds frozen pending
/// dispute resolution, and whether a chargeback has locked the account
/// for good.
#[derive(Debug, Clone, Copy, PartialEq, Eq, Structural)]
pub struct Account {
    /// Funds available to withdrawals.
    pub available: Money,
    /// Funds locked for disputes.
    pub held: Money,
    /// Whether or not the account is locked.
    pub locked: bool,
}

impl View for Account {
    type V = AccountV;

    open spec fn view(&self) -> AccountV {
        AccountV { available: self.available@, held: self.held@, locked: self.locked }
    }
}

impl Account {
    /// A fresh account: both balances zero, not locked.
    pub fn new() -> (r: Account)
        ensures
            r@ == AccountV::initial(),
    {
        Account { available: Money::zero(), held: Money::zero(), locked: false }
    }

    /// Rejects any mutation of a locked account.
    fn check_lock(&self) -> (r: Result<(), AccountError>)
        ensures
            match r {
                Ok(_) => !self.locked,
                Err(e) => self.locked && e is AccountLocked,
            },
    {
        if self.locked {
            return Err(AccountError::AccountLocked);
        }
        Ok(())
    }

    /// Adds `amount` to the available balance.
    pub(crate) fn deposit(&mut self, amount: &Money) -> (r: Result<(), AccountError>)
        requires
            old(self)@.inv(),
        ensures
            final(self)@.inv(),
            (final(self)@, account_result_view(r)) == spec_deposit(old(self)@, amount@),
    {
        match self.check_lock() {
            Err(e) => {
                return Err(e);
            },
            Ok(_) => {},
        }
        if amount.is_negative() {
            return Err(AccountError::NegativeAmount { amount: *amount });
        }
        let room: i128 = i128::MAX - self.available.units() - self.held.units();
        if amount.units() > room {
            return Err(AccountError::BalanceOverflow { amount: *amount });
        }
        self.available = self.available.add(amount);
        Ok(())
    }

    /// Takes `amount` out of the available balance.
    pub(crate) fn withdraw(&mut self, amount: &Money) -> (r: Result<(), AccountError>)
        requires
            old(self)@.inv(),
        ensures
            final(self)@.inv(),
            (final(self)@, account_result_view(r)) == spec_withdraw(old(self)@, amount@),
    {
        match self.check_lock() {
            Err(e) => {
                return Err(e);
            },
            Ok(_) => {},
        }
        if amount.is_negative() {
            return Err(AccountError::NegativeAmount { amount: *amount });
        }
        if self.available.lt(amount) {
            return Err(AccountError::NotEnoughFunds {
                available: self.available,
                required: *amount,
            });
        }
        self.available = self.available.sub(amount);
        Ok(())
    }

    /// Freezes `amount` of available funds while a dispute is open.
    pub(crate) fn lock_funds(&mut self, amount: &Money) -> (r: Result<(), AccountError>)
        requires
            old(self)@.inv(),
            amount@ >= 0,
        ensures
            final(self)@.inv(),
            (final(self)@, account_result_view(r)) == spec_lock_funds(old(self)@, amount@),
    {
        match self.check_lock() {
            Err(e) => {
                return Err(e);
            },
            Ok(_) => {},
        }
        if self.available.lt(amount) {
            return Err(AccountError::NotEnoughFunds {
                available: self.available,
                required: *amount,
            });
        }
        self.available = self.available.sub(amount);
        self.held = self.held.add(amount);
        Ok(())
    }

    /// Returns `amount` of held funds to the available balance when a
    /// dispute is resolved.
    pub(crate) fn release_funds(&mut self, amount: &Money) -> (r: Result<(), AccountError>)
        requires
            old(self)@.inv(),
            amount@ >= 0,
        ensures
            final(self)@.inv(),
            (final(self)@, account_result_view(r)) == spec_release_funds(old(self)@, amount@),
    {
        match self.check_lock() {
            Err(e) => {
                return Err(e);
            },
            Ok(_) => {},
        }
        if self.held.lt(amount) {
            return Err(AccountError::NotEnoughFunds { available: self.held, required: *amount });
        }
        self.held = self.held.sub(amount);
        self.available = self.available.add(amount);
        Ok(())
    }

    /// Removes `amount` of held funds for a chargeback and locks the
    /// account for good.
    pub(crate) fn chargeback_funds(&mut self, amount: &Money) -> (r: Result<(), AccountError>)
        requires
            old(self)@.inv(),
            amount@ >= 0,
        ensures
            final(self)@.inv(),
            (final(self)@, account_result_view(r)) == spec_chargeback_funds(old(self)@, amount@),
    {
        match self.check_lock() {
            Err(e) => {
                return Err(e);
            },
            Ok(_) => {},
        }
        if self.held.lt(amount) {
            return Err(AccountError::NotEnoughFunds { available: self.held, required: *amount });
        }
        self.held = self.held.sub(amount);
        self.locked = true;
        Ok(())
    }
}

} // verus!
