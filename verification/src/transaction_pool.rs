//! The pool of pending transactions: a plain holder in order of arrival.

use crate::transaction::{clone_transactions, transaction_views, Transaction, TransactionView};
use vstd::prelude::*;

verus! {

/// Transactions that were submitted and are not part of any block. Nothing
/// is validated, nothing is dropped as a duplicate, and nothing leaves.
#[derive(Debug)]
pub struct TransactionPool {
    transactions: Vec<Transaction>,
}

impl View for TransactionPool {
    type V = Seq<TransactionView>;

    closed spec fn view(&self) -> Seq<TransactionView> {
        transaction_views(self.transactions@)
    }
}

impl TransactionPool {
    /// An empty pool.
    pub fn new() -> (pool: TransactionPool)
        ensures
            pool@ == Seq::<TransactionView>::empty(),
    {
        let pool = TransactionPool { transactions: Vec::new() };
        pool
    }

    /// Adds `transaction` behind those that came before.
    pub fn push(&mut self, transaction: Transaction)
        ensures
            final(self)@ == old(self)@.push(transaction@),
    {
        self.transactions.push(transaction);
    }

    /// How many transactions are pending.
    pub fn len(&self) -> (n: usize)
        ensures
            n == self@.len(),
    {
        self.transactions.len()
    }

    /// A copy of the pending transactions, in order of arrival.
    pub fn get_all(&self) -> (pending: Vec<Transaction>)
        ensures
            transaction_views(pending@) == self@,
    {
        clone_transactions(&self.transactions)
    }
}

impl Default for TransactionPool {
    fn default() -> (pool: TransactionPool)
        ensures
            pool@ == Seq::<TransactionView>::empty(),
    {
        TransactionPool::new()
    }
}

} // verus!
