//! An in-memory ledger engine.
//!
//! The engine replays an ordered stream of client payment events —
//! deposits, withdrawals, disputes, resolves and chargebacks — and keeps
//! the resulting per-client account balances. All money-movement rules,
//! consistency invariants and failure semantics live here; reading
//! records from the outside world and writing balances back out is left
//! to the surrounding program.

pub mod account;
pub mod laws;
pub mod ledger;
pub mod money;

pub use account::Account;
pub use account::AccountError;
pub use ledger::CephalopodError;
pub use ledger::IntegrityError;
pub use ledger::State;
pub use ledger::Transaction;
pub use ledger::TransactionError;
pub use ledger::TransactionState;
pub use ledger::TransactionType;
pub use money::Money;
