//! The record layout of the column-family store: the families, the height
//! index key, account keys, and the decoding of stored metadata.
use vstd::prelude::*;

use crate::storage::{colon_parts, colon_pieces, height_value, lossy_text, parse_u32_or_zero, u32_or_zero, utf8_lossy,
    lemma_replacement_not_number};
use crate::text::{push_str, push_decimal, decimal, parse_u64, repeat_char};

verus! {

pub const CF_BLOCKS: &'static str = "blocks";
pub const CF_BLOCK_HEIGHT: &'static str = "block_height";
pub const CF_TXS: &'static str = "transactions";
pub const CF_UTXO: &'static str = "utxo";
pub const CF_ACCOUNTS: &'static str = "accounts";
pub const CF_META: &'static str = "meta";

/// Why an operation of the column-family store failed.
#[derive(Debug)]
pub enum StorageError {
    RocksDbError(String),
    SerializationError(String),
    DeserializationError(String),
    CfNotFound,
    InvalidData,
}

/// The message of each error.
pub open spec fn rocks_error_text(e: StorageError) -> Seq<char> {
    match e {
        StorageError::RocksDbError(m) => "RocksDB error: "@ + m@,
        StorageError::SerializationError(m) => "Serialization error: "@ + m@,
        StorageError::DeserializationError(m) => "Deserialization error: "@ + m@,
        StorageError::CfNotFound => "Column family not found"@,
        StorageError::InvalidData => "Invalid data"@,
    }
}

impl StorageError {
    /// The message shown for the error.
    pub fn message(&self) -> (r: String)
        ensures
            r@ == rocks_error_text(*self),
    {
        let mut s = String::new();
        match self {
            StorageError::RocksDbError(m) => {
                push_str(&mut s, "RocksDB error: ");
                push_str(&mut s, m.as_str());
            },
            StorageError::SerializationError(m) => {
                push_str(&mut s, "Serialization error: ");
                push_str(&mut s, m.as_str());
            },
            StorageError::DeserializationError(m) => {
                push_str(&mut s, "Deserialization error: ");
                push_str(&mut s, m.as_str());
            },
            StorageError::CfNotFound => push_str(&mut s, "Column family not found"),
            StorageError::InvalidData => push_str(&mut s, "Invalid data"),
        }
        s
    }
}

/// The decimal text of `n`, left-padded with zeros to at least `w` characters
/// (`format!("{:0w$}", n)`).
pub open spec fn zero_padded(n: nat, w: nat) -> Seq<char> {
    let d = decimal(n);
    if d.len() < w {
        repeat_char('0', (w - d.len()) as nat) + d
    } else {
        d
    }
}

/// `height:<height, ten digits at least>`, the key of the height index.
pub fn height_key(height: u64) -> (r: String)
    ensures
        r@ == "height:"@ + zero_padded(height as nat, 10),
{
    let digits = crate::text::u64_to_string(height);
    let mut s = String::new();
    push_str(&mut s, "height:");
    let n = digits.unicode_len();
    if n < 10 {
        let zeros = crate::text::repeat('0', 10 - n);
        push_str(&mut s, zeros.as_str());
    }
    push_str(&mut s, digits.as_str());
    s
}

/// `acc:<address>`, the key of an account.
pub fn account_key(address: &str) -> (r: String)
    ensures
        r@ == "acc:"@ + address@,
{
    let mut s = String::new();
    push_str(&mut s, "acc:");
    push_str(&mut s, address);
    s
}

/// The stored best height: 0 when none is stored, `InvalidData` when the
/// value is not a decimal number.
pub fn decode_best_height(value: Option<Vec<u8>>) -> (r: Result<u64, StorageError>)
    ensures
        value is None ==> r matches Ok(0u64),
        value matches Some(b) ==> match height_value(b@) {
            Some(h) => r matches Ok(x) && x == h,
            None => r matches Err(StorageError::InvalidData),
        },
{
    match value {
        None => Ok(0),
        Some(b) => {
            let text = utf8_lossy(b.as_slice());
            proof {
                if !vstd::utf8::valid_utf8(b@) {
                    lemma_replacement_not_number(text@);
                }
            }
            match parse_u64(text.as_str()) {
                Some(h) => Ok(h),
                None => Err(StorageError::InvalidData),
            }
        },
    }
}

/// The transaction and output index an unspent-output key names: the key
/// must split at `:` into exactly three pieces (the first being the
/// prefix); the index is 0 when the third piece is no `u32`.
pub open spec fn key_parts(key: Seq<char>) -> Option<(Seq<char>, u32)> {
    let ps = colon_parts(key);
    if ps.len() == 3 {
        Some((ps[1], u32_or_zero(ps[2])))
    } else {
        None
    }
}

/// Reads an unspent-output key as stored (see `key_parts`).
pub fn parse_utxo_key(key: &[u8]) -> (r: Option<(String, u32)>)
    ensures
        match key_parts(lossy_text(key@)) {
            Some((t, v)) => r matches Some((a, b)) && a@ == t && b == v,
            None => r is None,
        },
{
    let text = utf8_lossy(key);
    let cs = crate::text::chars_of(text.as_str());
    assert(cs@.skip(0) =~= cs@);
    let parts = colon_pieces(&cs, 0);
    let ghost pv = parts@.map_values(|x: String| x@);
    if parts.len() == 3 {
        assert(pv[1] == parts@[1]@);
        assert(pv[2] == parts@[2]@);
        let v = parse_u32_or_zero(parts[2].as_str());
        Some((parts[1].clone(), v))
    } else {
        None
    }
}

} // verus!
