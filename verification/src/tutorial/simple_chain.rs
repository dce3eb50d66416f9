//! A list of hashed blocks, each pointing to the one before.
use vstd::prelude::*;
use crate::tutorial::hashing::{Block, block_digest};
use crate::text::{str_eq, push_char};

verus! {

/// The chain of blocks, genesis first.
#[derive(Debug, Clone)]
pub struct Blockchain {
    pub chain: Vec<Block>,
}

/// Every block after the first carries its own hash and its predecessor's.
pub open spec fn linked(c: Seq<Block>) -> bool {
    forall|i: int|
        1 <= i < c.len() ==> (#[trigger] c[i]).hash@ == block_digest(c[i]) && c[i].prev_hash@ == c[i
            - 1].hash@
}

impl Blockchain {
    /// A chain holding the genesis block (index 0, after `"0"`).
    pub fn new() -> (r: Self)
        ensures
            r.chain@.len() == 1,
            r.chain@[0].index == 0,
            r.chain@[0].data@ == "Genesis Block"@,
            r.chain@[0].prev_hash@ == seq!['0'],
            r.chain@[0].hash@ == block_digest(r.chain@[0]),
    {
        let mut zero = String::new();
        push_char(&mut zero, '0');
        let genesis = Block::new(0, "Genesis Block".to_owned(), zero);
        let mut chain = Vec::new();
        chain.push(genesis);
        Blockchain { chain }
    }

    /// The last block.
    pub fn get_last_block(&self) -> (r: &Block)
        requires
            self.chain@.len() >= 1,
        ensures
            *r == self.chain@.last(),
    {
        &self.chain[self.chain.len() - 1]
    }

    /// Appends a block holding `data` after the last one.
    pub fn add_block(&mut self, data: String)
        requires
            old(self).chain@.len() >= 1,
            old(self).chain@.last().index < u64::MAX,
        ensures
            final(self).chain@.len() == old(self).chain@.len() + 1,
            final(self).chain@.drop_last() == old(self).chain@,
            final(self).chain@.last().index == old(self).chain@.last().index + 1,
            final(self).chain@.last().data@ == data@,
            final(self).chain@.last().prev_hash@ == old(self).chain@.last().hash@,
            final(self).chain@.last().hash@ == block_digest(final(self).chain@.last()),
    {
        let last = self.get_last_block();
        let block = Block::new(last.index + 1, data, last.hash.clone());
        self.chain.push(block);
    }

    /// Whether every block after the first has its own hash and links to its predecessor.
    pub fn is_valid(&self) -> (r: bool)
        ensures
            r == linked(self.chain@),
    {
        let mut i: usize = 1;
        while i < self.chain.len()
            invariant
                1 <= i,
                i <= self.chain@.len() || self.chain@.len() == 0,
                forall|j: int|
                    1 <= j < i && j < self.chain@.len() ==> (#[trigger] self.chain@[j]).hash@
                        == block_digest(self.chain@[j]) && self.chain@[j].prev_hash@ == self.chain@[j
                        - 1].hash@,
            decreases self.chain@.len() - i,
        {
            let current = &self.chain[i];
            let previous = &self.chain[i - 1];
            if !current.verify_hash() {
                return false;
            }
            if !str_eq(current.prev_hash.as_str(), previous.hash.as_str()) {
                return false;
            }
            i = i + 1;
        }
        true
    }
}

} // verus!
