//! The ledger: an append-only chain of blocks, each linked to the one
//! before it by index and hash.

use crate::block::{block_views, hash_function, zero_hash, Block, BlockHash, BlockView};
use vstd::prelude::*;

verus! {

/// Why a candidate block does not follow the last block of the chain.
#[derive(Clone, Copy, Debug, PartialEq, Eq, Structural)]
pub enum StructuralViolation {
    /// The candidate's index is not the last block's index plus one.
    InvalidIndex,
    /// The candidate's previous hash is not the last block's hash.
    InvalidPreviousHash,
    /// The candidate's hash is not the hash of its contents.
    InvalidHash,
}

/// The first block of every chain: index 0, nonce 0, the zero hash for a
/// predecessor, no transactions, sealed.
pub open spec fn genesis() -> BlockView {
    BlockView {
        index: 0,
        nonce: 0,
        previous_hash: zero_hash(),
        hash: hash_function(0, 0, zero_hash(), Seq::empty()),
        transactions: Seq::empty(),
    }
}

/// The first check that `candidate` fails as a successor of `last`, in the
/// order index, previous hash, hash; `None` where it passes all three.
pub open spec fn violation(last: BlockView, candidate: BlockView) -> Option<StructuralViolation> {
    if candidate.index != last.index + 1 {
        Some(StructuralViolation::InvalidIndex)
    } else if candidate.previous_hash != last.hash {
        Some(StructuralViolation::InvalidPreviousHash)
    } else if candidate.hash != candidate.computed_hash() {
        Some(StructuralViolation::InvalidHash)
    } else {
        None
    }
}

/// What an attempt to append `candidate` to `chain` answers: the first
/// check that the candidate fails against the last block, or success.
pub open spec fn outcome(chain: Seq<BlockView>, candidate: BlockView) -> Result<
    (),
    StructuralViolation,
> {
    match violation(chain.last(), candidate) {
        Some(v) => Err(v),
        None => Ok(()),
    }
}

/// `next` may follow `prev`: its index is one more, it names the hash of
/// `prev`, and it is sealed.
pub open spec fn follows(prev: BlockView, next: BlockView) -> bool {
    &&& next.index == prev.index + 1
    &&& next.previous_hash == prev.hash
    &&& next.sealed()
}

/// A chain starts with the genesis block, and each later block follows the
/// one before it.
pub open spec fn valid_chain(chain: Seq<BlockView>) -> bool {
    &&& chain.len() > 0
    &&& chain[0] == genesis()
    &&& forall|i: int| 0 < i < chain.len() ==> follows(chain[i - 1], #[trigger] chain[i])
}

/// The chain after an attempt to append `candidate`: one block longer where
/// the candidate passes every check, unchanged otherwise.
pub open spec fn append(chain: Seq<BlockView>, candidate: BlockView) -> Seq<BlockView> {
    if violation(chain.last(), candidate) is None {
        chain.push(candidate)
    } else {
        chain
    }
}

/// The chain after the attempts to append each of `candidates`, in order.
pub open spec fn append_all(chain: Seq<BlockView>, candidates: Seq<BlockView>) -> Seq<BlockView>
    decreases candidates.len(),
{
    if candidates.len() == 0 {
        chain
    } else {
        append(append_all(chain, candidates.drop_last()), candidates.last())
    }
}

/// In a chain each block's index is its position, so that the indices run
/// from 0 without a gap.
pub proof fn lemma_index_is_position(chain: Seq<BlockView>, i: int)
    requires
        valid_chain(chain),
        0 <= i < chain.len(),
    ensures
        chain[i].index == i,
    decreases i,
{
    if i > 0 {
        lemma_index_is_position(chain, i - 1);
    }
}

/// Every block of a chain is sealed: its stored hash is the hash of its
/// contents.
pub proof fn lemma_blocks_sealed(chain: Seq<BlockView>, i: int)
    requires
        valid_chain(chain),
        0 <= i < chain.len(),
    ensures
        chain[i].sealed(),
{
    if i > 0 {
    }
}

/// No two blocks of a chain share an index.
pub proof fn lemma_indices_distinct(chain: Seq<BlockView>, i: int, j: int)
    requires
        valid_chain(chain),
        0 <= i < chain.len(),
        0 <= j < chain.len(),
        i != j,
    ensures
        chain[i].index != chain[j].index,
{
    lemma_index_is_position(chain, i);
    lemma_index_is_position(chain, j);
}

/// A candidate whose index is one more than the last block's, whose
/// previous hash is the last block's hash and whose hash is the hash of its
/// contents is appended, and is then the last block.
pub proof fn lemma_append_accepts(chain: Seq<BlockView>, candidate: BlockView)
    requires
        valid_chain(chain),
        candidate.index == chain.last().index + 1,
        candidate.previous_hash == chain.last().hash,
        candidate.hash == hash_function(
            candidate.index,
            candidate.nonce,
            candidate.previous_hash,
            candidate.transactions,
        ),
    ensures
        violation(chain.last(), candidate) is None,
        append(chain, candidate) == chain.push(candidate),
        append(chain, candidate).last() == candidate,
{
}

/// A candidate with the wrong index, the wrong previous hash or a hash that
/// is not the hash of its contents is rejected, and the chain stays as it
/// was.
pub proof fn lemma_append_rejects(chain: Seq<BlockView>, candidate: BlockView)
    requires
        valid_chain(chain),
        candidate.index != chain.last().index + 1 || candidate.previous_hash != chain.last().hash
            || candidate.hash != hash_function(
            candidate.index,
            candidate.nonce,
            candidate.previous_hash,
            candidate.transactions,
        ),
    ensures
        violation(chain.last(), candidate) is Some,
        append(chain, candidate) == chain,
{
}

/// Whatever the candidate, an attempt to append it leaves a valid chain
/// that starts with the chain as it was: nothing is removed, reordered or
/// changed.
pub proof fn lemma_append_extends(chain: Seq<BlockView>, candidate: BlockView)
    requires
        valid_chain(chain),
    ensures
        valid_chain(append(chain, candidate)),
        chain.len() <= append(chain, candidate).len() <= chain.len() + 1,
        append(chain, candidate).take(chain.len() as int) == chain,
{
    let after = append(chain, candidate);
    if violation(chain.last(), candidate) is None {
        assert forall|i: int| 0 < i < after.len() implies follows(
            after[i - 1],
            #[trigger] after[i],
        ) by {
            if i < chain.len() {
            }
        }
    }
}

/// Whatever the candidates and whatever their order, the attempts to append
/// them one after the other leave a valid chain that starts with the chain
/// as it was; so no two accepted blocks share an index, and the indices run
/// from 0 without a gap.
pub proof fn lemma_append_all_extends(chain: Seq<BlockView>, candidates: Seq<BlockView>)
    requires
        valid_chain(chain),
    ensures
        valid_chain(append_all(chain, candidates)),
        chain.len() <= append_all(chain, candidates).len() <= chain.len() + candidates.len(),
        append_all(chain, candidates).take(chain.len() as int) == chain,
        forall|i: int|
            0 <= i < append_all(chain, candidates).len() ==> (#[trigger] append_all(
                chain,
                candidates,
            )[i]).index == i,
    decreases candidates.len(),
{
    let after = append_all(chain, candidates);
    if candidates.len() == 0 {
    } else {
        let before = append_all(chain, candidates.drop_last());
        lemma_append_all_extends(chain, candidates.drop_last());
        lemma_append_extends(before, candidates.last());
    }
    assert forall|i: int| 0 <= i < after.len() implies (#[trigger] after[i]).index == i by {
        lemma_index_is_position(after, i);
    }
}

/// Blocks of which the first follows the genesis block and each later one
/// follows the one before it.
pub open spec fn sequential(blocks: Seq<BlockView>) -> bool {
    forall|k: int|
        0 <= k < blocks.len() ==> follows(
            if k == 0 {
                genesis()
            } else {
                blocks[k - 1]
            },
            #[trigger] blocks[k],
        )
}

/// Appending valid sequential blocks to a fresh chain accepts every one of
/// them: the chain is then the genesis block followed by the blocks, one
/// longer than their number, and valid.
pub proof fn lemma_append_all_sequential(blocks: Seq<BlockView>)
    requires
        sequential(blocks),
    ensures
        append_all(seq![genesis()], blocks) == seq![genesis()] + blocks,
        append_all(seq![genesis()], blocks).len() == blocks.len() + 1,
        valid_chain(append_all(seq![genesis()], blocks)),
    decreases blocks.len(),
{
    let fresh = seq![genesis()];
    if blocks.len() == 0 {
    } else {
        let earlier = blocks.drop_last();
        assert forall|k: int| 0 <= k < earlier.len() implies follows(
            if k == 0 {
                genesis()
            } else {
                earlier[k - 1]
            },
            #[trigger] earlier[k],
        ) by {
        }
        lemma_append_all_sequential(earlier);
        let before = append_all(fresh, earlier);
        assert(follows(before.last(), blocks.last())) by {
        }
        lemma_append_extends(before, blocks.last());
    }
}

/// An append-only chain of blocks that always holds the genesis block.
#[derive(Debug)]
pub struct Blockchain {
    blocks: Vec<Block>,
}

impl View for Blockchain {
    type V = Seq<BlockView>;

    closed spec fn view(&self) -> Seq<BlockView> {
        block_views(self.blocks@)
    }
}

impl Blockchain {
    /// The blocks form a valid chain. Every value that the functions of this
    /// type build or leave behind is well-formed.
    pub open spec fn wf(&self) -> bool {
        valid_chain(self@)
    }

    /// A chain that holds the genesis block and nothing else.
    pub fn new() -> (chain: Blockchain)
        ensures
            chain.wf(),
            chain@ == seq![genesis()],
    {
        let genesis_block = Blockchain::create_genesis_block();
        let mut blocks: Vec<Block> = Vec::new();
        blocks.push(genesis_block);
        Blockchain { blocks }
    }

    /// A copy of the most recent block.
    pub fn get_last_block(&self) -> (block: Block)
        requires
            self.wf(),
        ensures
            block@ == self@.last(),
    {
        self.blocks[self.blocks.len() - 1].clone()
    }

    /// A copy of the whole chain, in order.
    pub fn get_all_blocks(&self) -> (blocks: Vec<Block>)
        ensures
            block_views(blocks@) == self@,
    {
        let mut blocks: Vec<Block> = Vec::new();
        let mut i: usize = 0;
        while i < self.blocks.len()
            invariant
                i <= self.blocks@.len(),
                blocks@.len() == i,
                forall|j: int| 0 <= j < i ==> blocks@[j]@ == self.blocks@[j]@,
            decreases self.blocks@.len() - i,
        {
            blocks.push(self.blocks[i].clone());
            i += 1;
        }
        blocks
    }

    /// Appends `block` where it follows the last block; otherwise leaves
    /// the chain as it is and says which check failed first.
    pub fn add_block(&mut self, block: Block) -> (result: Result<(), StructuralViolation>)
        requires
            old(self).wf(),
        ensures
            final(self).wf(),
            final(self)@ == append(old(self)@, block@),
            result == outcome(old(self)@, block@),
    {
        proof {
            lemma_index_is_position(self@, self@.len() - 1);
        }
        let last = &self.blocks[self.blocks.len() - 1];
        if block.index != last.index + 1 {
            return Err(StructuralViolation::InvalidIndex);
        }
        if block.previous_hash != last.hash {
            return Err(StructuralViolation::InvalidPreviousHash);
        }
        if block.hash != block.calculate_hash() {
            return Err(StructuralViolation::InvalidHash);
        }
        self.blocks.push(block);
        assert(self@ =~= old(self)@.push(block@));
        Ok(())
    }

    /// The genesis block.
    pub fn create_genesis_block() -> (block: Block)
        ensures
            block@ == genesis(),
    {
        let block = Block::new(0, 0, BlockHash::default(), Vec::new());
        assert(block@.transactions =~= Seq::empty());
        block
    }
}

impl Default for Blockchain {
    fn default() -> (chain: Blockchain)
        ensures
            chain.wf(),
            chain@ == seq![genesis()],
    {
        Blockchain::new()
    }
}

} // verus!
