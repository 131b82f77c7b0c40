//! Handles that let several callers share one ledger and one pool.
//!
//! Each handle guards its value with a lock of its own. A read or an append
//! holds the ledger's lock from start to end, so appends happen one at a
//! time and no reader sees a block half appended. The ledger's lock only
//! ever stores a valid chain.
//!
//! To the verifier a handle is its lock, not what the lock stores at some
//! moment: other callers may change that between any two calls. A contract
//! here can therefore only say what holds of everything the lock may store.
//! For the ledger that is a valid chain, and its methods say so. For the
//! pool it is nothing, and for a fresh handle nothing more than its type
//! says. What an operation does to a given ledger or pool is stated where
//! that value is an argument: on [`Blockchain`] and [`TransactionPool`].

use crate::block::{block_views, Block, BlockView};
use crate::blockchain::{outcome, valid_chain, Blockchain, StructuralViolation};
use crate::transaction::Transaction;
use crate::transaction_pool::TransactionPool;
use std::sync::Arc;
use vstd::prelude::*;
use vstd::rwlock::{RwLock, RwLockPredicate};

verus! {

/// What the ledger's lock may store: a well-formed ledger.
pub struct ValidLedger;

impl RwLockPredicate<Blockchain> for ValidLedger {
    open spec fn inv(self, v: Blockchain) -> bool {
        v.wf()
    }
}

/// What the pool's lock may store: any pool.
pub struct AnyPool;

impl RwLockPredicate<TransactionPool> for AnyPool {
    open spec fn inv(self, v: TransactionPool) -> bool {
        true
    }
}

/// A ledger shared by several callers. Copies of the handle refer to the
/// same ledger.
#[derive(Clone)]
pub struct SharedBlockchain {
    ledger: Arc<RwLock<Blockchain, ValidLedger>>,
}

impl SharedBlockchain {
    /// A handle to a fresh ledger, which holds the genesis block only.
    pub fn new() -> (shared: SharedBlockchain) {
        SharedBlockchain { ledger: Arc::new(RwLock::new(Blockchain::new(), Ghost(ValidLedger))) }
    }

    /// A copy of the block that was the most recent one while the lock was
    /// held: the last block of a valid chain.
    pub fn get_last_block(&self) -> (block: Block)
        ensures
            exists|chain: Seq<BlockView>| valid_chain(chain) && block@ == chain.last(),
    {
        let handle = self.ledger.acquire_read();
        let block = handle.borrow().get_last_block();
        assert(valid_chain(handle@@) && block@ == handle@@.last());
        handle.release_read();
        block
    }

    /// A copy of the chain as it stood while the lock was held: a valid
    /// chain, whatever appends other callers have made or attempted.
    pub fn get_all_blocks(&self) -> (blocks: Vec<Block>)
        ensures
            valid_chain(block_views(blocks@)),
    {
        let handle = self.ledger.acquire_read();
        let blocks = handle.borrow().get_all_blocks();
        handle.release_read();
        blocks
    }

    /// Attempts to append `block` to the chain as it stands once the lock is
    /// held, and answers as [`Blockchain::add_block`] does on that chain.
    pub fn add_block(&self, block: Block) -> (result: Result<(), StructuralViolation>)
        ensures
            exists|chain: Seq<BlockView>| valid_chain(chain) && result == outcome(chain, block@),
    {
        let (mut chain, handle) = self.ledger.acquire_write();
        let ghost before = chain@;
        let result = chain.add_block(block);
        assert(valid_chain(before) && result == outcome(before, block@));
        handle.release_write(chain);
        result
    }
}

/// A pool shared by several callers. Copies of the handle refer to the same
/// pool.
#[derive(Clone)]
pub struct SharedTransactionPool {
    pool: Arc<RwLock<TransactionPool, AnyPool>>,
}

impl SharedTransactionPool {
    /// A handle to a fresh, empty pool.
    pub fn new() -> (shared: SharedTransactionPool) {
        SharedTransactionPool { pool: Arc::new(RwLock::new(TransactionPool::new(), Ghost(AnyPool))) }
    }

    /// Adds `transaction` to the pool.
    pub fn push(&self, transaction: Transaction) {
        let (mut pool, handle) = self.pool.acquire_write();
        pool.push(transaction);
        handle.release_write(pool);
    }

    /// A copy of the transactions that were pending while the lock was held.
    pub fn get_all(&self) -> (pending: Vec<Transaction>) {
        let handle = self.pool.acquire_read();
        let pending = handle.borrow().get_all();
        handle.release_read();
        pending
    }
}

} // verus!
