//! A block with an index, a time, some data and the previous hash.
use vstd::prelude::*;
use crate::chain::types::now_timestamp;
use crate::text::{push_str, push_decimal, push_signed_decimal, decimal, signed_decimal};

verus! {

#[derive(Debug, Clone)]
pub struct Block {
    pub index: u64,
    pub timestamp: i64,
    pub data: String,
    pub prev_hash: String,
    pub hash: String,
}

/// `Block #<index> [<timestamp>] <data>`.
pub open spec fn block_line(b: Block) -> Seq<char> {
    "Block #"@ + decimal(b.index as nat) + " ["@ + signed_decimal(b.timestamp as int) + "] "@ + b.data@
}

impl Block {
    /// A block stamped with the current time; its hash is left empty.
    pub fn new(index: u64, data: String, prev_hash: String) -> (r: Self)
        ensures
            r.index == index,
            r.data@ == data@,
            r.prev_hash@ == prev_hash@,
            r.hash@.len() == 0,
    {
        Self::new_at(index, data, prev_hash, now_timestamp())
    }

    /// A block stamped with `timestamp`; its hash is left empty.
    pub fn new_at(index: u64, data: String, prev_hash: String, timestamp: i64) -> (r: Self)
        ensures
            r.index == index,
            r.timestamp == timestamp,
            r.data@ == data@,
            r.prev_hash@ == prev_hash@,
            r.hash@.len() == 0,
    {
        Block { index, timestamp, data, prev_hash, hash: String::new() }
    }

    /// The one-line rendering `Block #<index> [<timestamp>] <data>`.
    pub fn to_string(&self) -> (r: String)
        ensures
            r@ == block_line(*self),
    {
        let mut s = String::new();
        push_str(&mut s, "Block #");
        push_decimal(&mut s, self.index);
        push_str(&mut s, " [");
        push_signed_decimal(&mut s, self.timestamp);
        push_str(&mut s, "] ");
        push_str(&mut s, self.data.as_str());
        assert(s@ =~= block_line(*self));
        s
    }
}

} // verus!
