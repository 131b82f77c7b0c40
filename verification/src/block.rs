//! Blocks: one ledger entry each, sealed by the hash of its contents.

use crate::encoding::{contents_bytes, encode_contents};
use crate::hex::{hex_text, to_hex};
use crate::sha256::{sha256, spec_sha256};
use crate::transaction::{
    clone_transactions, same_transactions, transaction_views, Transaction, TransactionView,
};
use vstd::prelude::*;

verus! {

/// A 32-byte digest.
#[derive(Clone, Copy, Debug)]
pub struct BlockHash {
    pub bytes: [u8; 32],
}

impl View for BlockHash {
    type V = Seq<u8>;

    open spec fn view(&self) -> Seq<u8> {
        self.bytes@
    }
}

/// The digest that stands where no block precedes: 32 zero bytes.
pub open spec fn zero_hash() -> Seq<u8> {
    Seq::new(32, |i: int| 0u8)
}

impl BlockHash {
    /// The digest as 64 lower-case hexadecimal digits.
    pub fn to_hex(&self) -> (text: String)
        ensures
            text@ == hex_text(self@),
    {
        to_hex(self.bytes.as_slice())
    }
}

impl Default for BlockHash {
    fn default() -> (h: BlockHash)
        ensures
            h@ == zero_hash(),
    {
        BlockHash { bytes: [0u8; 32] }
    }
}

impl PartialEq for BlockHash {
    fn eq(&self, other: &BlockHash) -> (r: bool) {
        let mut i: usize = 0;
        while i < 32
            invariant
                i <= 32,
                forall|j: int| 0 <= j < i ==> self.bytes@[j] == other.bytes@[j],
            decreases 32 - i,
        {
            if self.bytes[i] != other.bytes[i] {
                return false;
            }
            i += 1;
        }
        assert(self@ =~= other@);
        true
    }
}

impl Eq for BlockHash {

}

impl vstd::std_specs::cmp::PartialEqSpecImpl for BlockHash {
    open spec fn obeys_eq_spec() -> bool {
        true
    }

    open spec fn eq_spec(&self, other: &BlockHash) -> bool {
        self@ == other@
    }
}

/// One ledger entry. The stored `hash` is a claim: it is only good where
/// it equals the hash recomputed from the other four fields.
#[derive(Debug)]
pub struct Block {
    pub index: u64,
    pub nonce: u64,
    pub previous_hash: BlockHash,
    pub hash: BlockHash,
    pub transactions: Vec<Transaction>,
}

/// What a [`Block`] holds, as mathematical values.
pub struct BlockView {
    pub index: u64,
    pub nonce: u64,
    pub previous_hash: Seq<u8>,
    pub hash: Seq<u8>,
    pub transactions: Seq<TransactionView>,
}

/// The hash function: the SHA-256 digest of the canonical encoding of a
/// block's index, nonce, previous hash and transactions.
#[verifier::opaque]
pub open spec fn hash_function(
    index: u64,
    nonce: u64,
    previous_hash: Seq<u8>,
    transactions: Seq<TransactionView>,
) -> Seq<u8> {
    spec_sha256(encode_contents(index, nonce, previous_hash, transactions))
}

impl BlockView {
    /// The hash recomputed from the fields other than `hash`.
    pub open spec fn computed_hash(self) -> Seq<u8> {
        hash_function(self.index, self.nonce, self.previous_hash, self.transactions)
    }

    /// The stored hash is the hash of the contents.
    pub open spec fn sealed(self) -> bool {
        self.hash == self.computed_hash()
    }
}

impl View for Block {
    type V = BlockView;

    open spec fn view(&self) -> BlockView {
        BlockView {
            index: self.index,
            nonce: self.nonce,
            previous_hash: self.previous_hash@,
            hash: self.hash@,
            transactions: transaction_views(self.transactions@),
        }
    }
}

/// The views of a sequence of blocks, in order.
pub open spec fn block_views(blocks: Seq<Block>) -> Seq<BlockView> {
    Seq::new(blocks.len(), |i: int| blocks[i]@)
}

/// Computes the hash function on the given contents.
pub fn hash_contents(
    index: u64,
    nonce: u64,
    previous_hash: &BlockHash,
    transactions: &Vec<Transaction>,
) -> (h: BlockHash)
    ensures
        h@ == hash_function(index, nonce, previous_hash@, transaction_views(transactions@)),
{
    proof {
        reveal(hash_function);
    }
    let bytes = contents_bytes(index, nonce, previous_hash.bytes.as_slice(), transactions);
    BlockHash { bytes: sha256(bytes.as_slice()) }
}

impl Block {
    /// Builds a block from its contents and seals it with their hash.
    pub fn new(
        index: u64,
        nonce: u64,
        previous_hash: BlockHash,
        transactions: Vec<Transaction>,
    ) -> (block: Block)
        ensures
            block@.index == index,
            block@.nonce == nonce,
            block@.previous_hash == previous_hash@,
            block@.transactions == transaction_views(transactions@),
            block@.sealed(),
    {
        let hash = hash_contents(index, nonce, &previous_hash, &transactions);
        Block { index, nonce, previous_hash, hash, transactions }
    }

    /// Recomputes the hash from the fields other than `hash`.
    pub fn calculate_hash(&self) -> (h: BlockHash)
        ensures
            h@ == self@.computed_hash(),
    {
        hash_contents(self.index, self.nonce, &self.previous_hash, &self.transactions)
    }
}

impl PartialEq for Block {
    fn eq(&self, other: &Block) -> (r: bool) {
        self.index == other.index && self.nonce == other.nonce && self.previous_hash
            == other.previous_hash && self.hash == other.hash && same_transactions(
            &self.transactions,
            &other.transactions,
        )
    }
}

impl Eq for Block {

}

impl vstd::std_specs::cmp::PartialEqSpecImpl for Block {
    open spec fn obeys_eq_spec() -> bool {
        true
    }

    open spec fn eq_spec(&self, other: &Block) -> bool {
        self@ == other@
    }
}

impl Clone for Block {
    fn clone(&self) -> (block: Block)
        ensures
            block@ == self@,
    {
        Block {
            index: self.index,
            nonce: self.nonce,
            previous_hash: self.previous_hash,
            hash: self.hash,
            transactions: clone_transactions(&self.transactions),
        }
    }
}

} // verus!
