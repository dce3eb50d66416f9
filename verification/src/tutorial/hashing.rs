//! A block whose hash is the SHA-256 of its fields.
use vstd::prelude::*;
use crate::chain::types::now_timestamp;
use crate::crypto::{sha256_hex, sha256_hex_spec};
use crate::text::{push_str, push_decimal, push_signed_decimal, decimal, signed_decimal, str_eq};

verus! {

#[derive(Debug, Clone)]
pub struct Block {
    pub index: u64,
    pub timestamp: i64,
    pub data: String,
    pub prev_hash: String,
    pub hash: String,
}

/// Hexadecimal SHA-256 of index, timestamp, data and previous hash, concatenated.
pub open spec fn block_digest(b: Block) -> Seq<char> {
    sha256_hex_spec(decimal(b.index as nat) + signed_decimal(b.timestamp as int) + b.data@ + b.prev_hash@)
}

impl Block {
    /// A block stamped with the current time, with its hash.
    pub fn new(index: u64, data: String, prev_hash: String) -> (r: Self)
        ensures
            r.index == index,
            r.data@ == data@,
            r.prev_hash@ == prev_hash@,
            r.hash@ == block_digest(r),
    {
        Self::new_at(index, data, prev_hash, now_timestamp())
    }

    /// A block stamped with `timestamp`, with its hash.
    pub fn new_at(index: u64, data: String, prev_hash: String, timestamp: i64) -> (r: Self)
        ensures
            r.index == index,
            r.timestamp == timestamp,
            r.data@ == data@,
            r.prev_hash@ == prev_hash@,
            r.hash@ == block_digest(r),
    {
        let mut block = Block { index, timestamp, data, prev_hash, hash: String::new() };
        block.hash = block.calculate_hash();
        block
    }

    pub fn calculate_hash(&self) -> (r: String)
        ensures
            r@ == block_digest(*self),
    {
        let mut data = String::new();
        push_decimal(&mut data, self.index);
        push_signed_decimal(&mut data, self.timestamp);
        push_str(&mut data, self.data.as_str());
        push_str(&mut data, self.prev_hash.as_str());
        assert(data@ =~= decimal(self.index as nat) + signed_decimal(self.timestamp as int) + self.data@
            + self.prev_hash@);
        sha256_hex(data.as_str())
    }

    /// Whether the stored hash is the block's hash.
    pub fn verify_hash(&self) -> (r: bool)
        ensures
            r == (self.hash@ == block_digest(*self)),
    {
        let h = self.calculate_hash();
        str_eq(self.hash.as_str(), h.as_str())
    }
}

} // verus!
