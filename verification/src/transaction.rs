//! Transactions: a transfer of an amount from a sender to a recipient.

use vstd::prelude::*;

verus! {

/// A transfer waiting to be recorded. Nothing about it is validated.
#[derive(Debug)]
pub struct Transaction {
    pub sender: String,
    pub recipient: String,
    pub amount: u64,
}

/// What a [`Transaction`] holds, as mathematical values.
pub struct TransactionView {
    pub sender: Seq<char>,
    pub recipient: Seq<char>,
    pub amount: u64,
}

impl View for Transaction {
    type V = TransactionView;

    open spec fn view(&self) -> TransactionView {
        TransactionView { sender: self.sender@, recipient: self.recipient@, amount: self.amount }
    }
}

/// The views of a sequence of transactions, in order.
pub open spec fn transaction_views(ts: Seq<Transaction>) -> Seq<TransactionView> {
    Seq::new(ts.len(), |i: int| ts[i]@)
}

impl Transaction {
    /// A transfer of `amount` from `sender` to `recipient`.
    pub fn new(sender: String, recipient: String, amount: u64) -> (t: Transaction)
        ensures
            t@ == (TransactionView { sender: sender@, recipient: recipient@, amount }),
    {
        Transaction { sender, recipient, amount }
    }
}

impl Clone for Transaction {
    fn clone(&self) -> (t: Transaction)
        ensures
            t@ == self@,
    {
        Transaction {
            sender: self.sender.clone(),
            recipient: self.recipient.clone(),
            amount: self.amount,
        }
    }
}

impl PartialEq for Transaction {
    fn eq(&self, other: &Transaction) -> (r: bool) {
        self.sender == other.sender && self.recipient == other.recipient && self.amount
            == other.amount
    }
}

impl Eq for Transaction {

}

impl vstd::std_specs::cmp::PartialEqSpecImpl for Transaction {
    open spec fn obeys_eq_spec() -> bool {
        true
    }

    open spec fn eq_spec(&self, other: &Transaction) -> bool {
        self@ == other@
    }
}

/// Whether two lists hold equal transactions in the same order.
pub fn same_transactions(a: &Vec<Transaction>, b: &Vec<Transaction>) -> (r: bool)
    ensures
        r == (transaction_views(a@) == transaction_views(b@)),
{
    if a.len() != b.len() {
        assert(transaction_views(a@).len() != transaction_views(b@).len());
        return false;
    }
    let mut i: usize = 0;
    while i < a.len()
        invariant
            i <= a@.len() == b@.len(),
            forall|j: int| 0 <= j < i ==> a@[j]@ == b@[j]@,
        decreases a@.len() - i,
    {
        if a[i] != b[i] {
            assert(transaction_views(a@)[i as int] != transaction_views(b@)[i as int]);
            return false;
        }
        i += 1;
    }
    assert(transaction_views(a@) =~= transaction_views(b@));
    true
}

/// Copies a list of transactions.
pub fn clone_transactions(ts: &Vec<Transaction>) -> (copy: Vec<Transaction>)
    ensures
        transaction_views(copy@) == transaction_views(ts@),
{
    let mut copy: Vec<Transaction> = Vec::new();
    let mut i: usize = 0;
    while i < ts.len()
        invariant
            i <= ts@.len(),
            copy@.len() == i,
            forall|j: int| 0 <= j < i ==> copy@[j]@ == ts@[j]@,
        decreases ts@.len() - i,
    {
        copy.push(ts[i].clone());
        i += 1;
    }
    copy
}

} // verus!
