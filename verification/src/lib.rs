//! An append-only ledger of hash-linked blocks.

pub mod block;
pub mod blockchain;
pub mod bytes;
pub mod encoding;
pub mod hex;
pub mod sha256;
pub mod shared;
pub mod transaction;
pub mod transaction_pool;
