//! An append-only, hash-linked ledger of token balances.
//!
//! Operations are wrapped into transactions, transactions are batched into
//! sealed blocks, and the ledger accepts a block only when it is intact,
//! non-empty, linked to the current tip and every operation in it applies.

pub mod account;
pub mod block;
pub mod blockchain;
pub mod encoding;
pub mod transactions;
