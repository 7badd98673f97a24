//! The canonical ordered history: a chain that accepts only valid
//! successors and adopts a competing chain only when it is valid and
//! strictly longer.

use vstd::prelude::*;
use crate::block::{Block, genesis_block, genesis_previous_hash, hash_is_valid, is_successor, zero_payload};

verus! {

pub struct BlockChain {
    pub block_chain: Vec<Block>,
}

impl View for BlockChain {
    type V = Seq<Block>;

    open spec fn view(&self) -> Seq<Block> {
        self.block_chain@
    }
}

/// Every adjacent pair of blocks is a valid link; an empty or single-block
/// chain is trivially valid.
pub open spec fn chain_valid(s: Seq<Block>) -> bool {
    forall|i: int| 1 <= i < s.len() ==> #[trigger] is_successor(s[i], s[i - 1])
}

impl Default for BlockChain {
    /// A chain containing exactly the genesis block; it is valid.
    fn default() -> (c: Self)
        ensures
            c@.len() == 1,
            c@[0].index == 0,
            c@[0].data@ == zero_payload(),
            c@[0].previous_hash@ == genesis_previous_hash(),
            hash_is_valid(c@[0]),
            chain_valid(c@),
    {
        let mut blocks: Vec<Block> = Vec::new();
        blocks.push(genesis_block());
        BlockChain { block_chain: blocks }
    }
}

impl BlockChain {
    /// The last block of the sequence. An empty sequence would break the
    /// genesis invariant and is ruled out.
    pub fn retrieve_latest_block(&self) -> (b: &Block)
        requires
            self@.len() >= 1,
        ensures
            *b == self@.last(),
    {
        let n: usize = self.block_chain.len();
        &self.block_chain[n - 1]
    }

    /// Appends `block` iff it is a valid successor of the latest block;
    /// otherwise leaves the chain untouched and hands `block` back.
    pub fn push_block(&mut self, block: Block) -> (r: Result<(), Block>)
        requires
            old(self)@.len() >= 1,
        ensures
            r is Ok <==> is_successor(block, old(self)@.last()),
            r is Ok ==> final(self)@ == old(self)@.push(block),
            r is Err ==> final(self)@ == old(self)@ && r->Err_0 == block,
    {
        if block.is_valid_successor_of(self.retrieve_latest_block()) {
            self.block_chain.push(block);
            Ok(())
        } else {
            Err(block)
        }
    }

    /// Checks every adjacent pair of the full sequence.
    pub fn is_valid_chain(&self) -> (r: bool)
        ensures
            r == chain_valid(self@),
    {
        let n: usize = self.block_chain.len();
        let mut i: usize = 1;
        while i < n
            invariant
                1 <= i,
                n == self@.len(),
                forall|j: int| 1 <= j < i as int ==> #[trigger] is_successor(self@[j], self@[j - 1]),
            decreases n - i,
        {
            if !self.block_chain[i].is_valid_successor_of(&self.block_chain[i - 1]) {
                assert(!is_successor(self@[i as int], self@[i as int - 1]));
                return false;
            }
            i += 1;
        }
        true
    }

    /// The number of blocks, genesis included.
    pub fn length(&self) -> (n: usize)
        ensures
            n == self@.len(),
    {
        self.block_chain.len()
    }

    /// Adopts `blockchain` wholesale iff it is valid and strictly longer;
    /// otherwise leaves this chain untouched and hands `blockchain` back.
    pub fn integrate_chain(&mut self, blockchain: BlockChain) -> (r: Result<(), BlockChain>)
        ensures
            r is Ok <==> chain_valid(blockchain@) && blockchain@.len() > old(self)@.len(),
            r is Ok ==> final(self)@ == blockchain@,
            r is Err ==> final(self)@ == old(self)@ && r->Err_0 == blockchain,
    {
        if blockchain.is_valid_chain() && blockchain.length() > self.length() {
            self.block_chain = blockchain.block_chain;
            Ok(())
        } else {
            Err(blockchain)
        }
    }
}

/// Appending a valid successor of the latest block keeps the whole chain
/// valid: extending a valid chain through the successor check never breaks
/// chain validity.
pub proof fn lemma_push_valid_successor_keeps_chain_valid(s: Seq<Block>, b: Block)
    requires
        chain_valid(s),
        s.len() >= 1,
        is_successor(b, s.last()),
    ensures
        chain_valid(s.push(b)),
{
    let t = s.push(b);
    assert forall|i: int| 1 <= i < t.len() implies #[trigger] is_successor(t[i], t[i - 1]) by {
        if i < s.len() {
            assert(t[i] == s[i]);
            assert(t[i - 1] == s[i - 1]);
        } else {
            assert(t[i] == b);
            assert(t[i - 1] == s[s.len() - 1]);
        }
    }
}

/// Appending a block that is not a valid successor of the latest block
/// makes the chain invalid: corruption past the end is always visible to
/// the full validity check.
pub proof fn lemma_push_invalid_successor_breaks_chain(s: Seq<Block>, b: Block)
    requires
        s.len() >= 1,
        !is_successor(b, s.last()),
    ensures
        !chain_valid(s.push(b)),
{
    let t = s.push(b);
    assert(t[t.len() - 1] == b);
    assert(t[t.len() - 2] == s[s.len() - 1]);
    assert(!is_successor(t[t.len() - 1], t[t.len() - 2]));
}

} // verus!
