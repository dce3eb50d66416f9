//! The record layout of a persistent chain: the keys under which blocks,
//! transactions, unspent outputs and metadata are kept, and the decoding of
//! what a key-value store hands back.
use vstd::prelude::*;

pub mod rocksdb;

use crate::text::{push_str, push_decimal, decimal, parse_u64, parse_u64_spec, all_digits};

verus! {

/// Why a storage operation failed.
#[derive(Debug)]
pub enum StorageError {
    DatabaseError(String),
    SerializationError(String),
    DeserializationError(String),
    InvalidData,
}

/// The message of each error.
pub open spec fn storage_error_text(e: StorageError) -> Seq<char> {
    match e {
        StorageError::DatabaseError(m) => "数据库错误: "@ + m@,
        StorageError::SerializationError(m) => "序列化错误: "@ + m@,
        StorageError::DeserializationError(m) => "反序列化错误: "@ + m@,
        StorageError::InvalidData => "无效的数据"@,
    }
}

impl StorageError {
    /// The message shown for the error.
    pub fn message(&self) -> (r: String)
        ensures
            r@ == storage_error_text(*self),
    {
        let mut s = String::new();
        match self {
            StorageError::DatabaseError(m) => {
                push_str(&mut s, "数据库错误: ");
                push_str(&mut s, m.as_str());
            },
            StorageError::SerializationError(m) => {
                push_str(&mut s, "序列化错误: ");
                push_str(&mut s, m.as_str());
            },
            StorageError::DeserializationError(m) => {
                push_str(&mut s, "反序列化错误: ");
                push_str(&mut s, m.as_str());
            },
            StorageError::InvalidData => push_str(&mut s, "无效的数据"),
        }
        s
    }
}

/// The key of the current height.
pub const KEY_HEIGHT: &'static str = "meta:height";

/// The key of the hash of the latest block.
pub const KEY_BEST_HASH: &'static str = "meta:best_hash";

/// What `String::from_utf8_lossy` makes of some bytes.
pub uninterp spec fn lossy_text(b: Seq<u8>) -> Seq<char>;

/// `String::from_utf8_lossy`, owned: valid UTF-8 is decoded as it is; in
/// other bytes each invalid sequence becomes U+FFFD, so at least one such
/// character appears. Where the replacements stand is not stated.
#[verifier::external_body]
pub(crate) fn utf8_lossy(b: &[u8]) -> (r: String)
    ensures
        r@ == lossy_text(b@),
        vstd::utf8::valid_utf8(b@) ==> r@ == vstd::utf8::decode_utf8(b@),
        !vstd::utf8::valid_utf8(b@) ==> r@.contains('\u{FFFD}'),
{
    String::from_utf8_lossy(b).into_owned()
}

/// A text holding U+FFFD is no number.
pub proof fn lemma_replacement_not_number(s: Seq<char>)
    requires
        s.contains('\u{FFFD}'),
    ensures
        parse_u64_spec(s) is None,
{
    let i = choose|i: int| 0 <= i < s.len() && s[i] == '\u{FFFD}';
    let d = if s.len() > 0 && s[0] == '+' { s.skip(1) } else { s };
    if s.len() > 0 && s[0] == '+' {
        assert(d[i - 1] == s[i]);
    } else {
        assert(d[i] == s[i]);
    }
}

/// The height a stored value stands for: its text, when it is UTF-8, read
/// as a decimal number.
pub open spec fn height_value(b: Seq<u8>) -> Option<u64> {
    if vstd::utf8::valid_utf8(b) {
        parse_u64_spec(vstd::utf8::decode_utf8(b))
    } else {
        None
    }
}

/// `blk:<hash>`.
pub fn block_key(hash: &str) -> (r: String)
    ensures
        r@ == "blk:"@ + hash@,
{
    let mut s = String::new();
    push_str(&mut s, "blk:");
    push_str(&mut s, hash);
    s
}

/// `tx:<id>`.
pub fn tx_key(id: &str) -> (r: String)
    ensures
        r@ == "tx:"@ + id@,
{
    let mut s = String::new();
    push_str(&mut s, "tx:");
    push_str(&mut s, id);
    s
}

/// `utxo:<tx id>:<output index>`.
pub fn utxo_key(tx_id: &str, vout: u32) -> (r: String)
    ensures
        r@ == "utxo:"@ + tx_id@ + ":"@ + decimal(vout as nat),
{
    let mut s = String::new();
    push_str(&mut s, "utxo:");
    push_str(&mut s, tx_id);
    push_str(&mut s, ":");
    push_decimal(&mut s, vout as u64);
    s
}

/// The stored height: 0 when none is stored, `InvalidData` when the value
/// is not a decimal number.
pub fn decode_height(value: Option<Vec<u8>>) -> (r: Result<u64, StorageError>)
    ensures
        value is None ==> r matches Ok(0u64),
        value matches Some(b) ==> match height_value(b@) {
            Some(h) => r matches Ok(x) && x == h,
            None => r matches Err(StorageError::InvalidData),
        },
{
    match value {
        None => Ok(0),
        Some(b) => {
            let text = utf8_lossy(b.as_slice());
            proof {
                if !vstd::utf8::valid_utf8(b@) {
                    lemma_replacement_not_number(text@);
                }
            }
            match parse_u64(text.as_str()) {
                Some(h) => Ok(h),
                None => Err(StorageError::InvalidData),
            }
        },
    }
}

/// The stored hash of the latest block, as text.
pub fn decode_best_hash(value: Option<Vec<u8>>) -> (r: Option<String>)
    ensures
        value is None ==> r is None,
        value matches Some(b) ==> (r matches Some(s) && s@ == lossy_text(b@)),
{
    match value {
        None => None,
        Some(b) => Some(utf8_lossy(b.as_slice())),
    }
}

/// The pieces of a text between `:` separators (one piece when there is
/// none), as `str::split(':')` yields them.
pub open spec fn colon_parts(s: Seq<char>) -> Seq<Seq<char>>
    decreases s.len(),
{
    if s.len() == 0 {
        seq![Seq::<char>::empty()]
    } else {
        let p = colon_parts(s.drop_last());
        if s.last() == ':' {
            p.push(Seq::<char>::empty())
        } else {
            p.update(p.len() - 1, p.last().push(s.last()))
        }
    }
}

proof fn lemma_colon_parts_nonempty(s: Seq<char>)
    ensures
        colon_parts(s).len() >= 1,
    decreases s.len(),
{
    if s.len() > 0 {
        lemma_colon_parts_nonempty(s.drop_last());
    }
}

/// `s` with every leading copy of `p` removed (`str::trim_start_matches`).
pub open spec fn strip_all(s: Seq<char>, p: Seq<char>) -> Seq<char>
    decreases s.len(),
{
    if p.len() > 0 && p.len() <= s.len() && s.take(p.len() as int) == p {
        strip_all(s.skip(p.len() as int), p)
    } else {
        s
    }
}

/// What `str::parse::<u32>` gives, with 0 for text that is no such number.
pub open spec fn u32_or_zero(s: Seq<char>) -> u32 {
    match parse_u64_spec(s) {
        Some(v) => if v <= u32::MAX { v as u32 } else { 0 },
        None => 0,
    }
}

/// The pieces of `cs` from `start` on between `:` separators.
pub(crate) fn colon_pieces(cs: &Vec<char>, start: usize) -> (r: Vec<String>)
    requires
        start <= cs@.len(),
    ensures
        r@.map_values(|x: String| x@) == colon_parts(cs@.skip(start as int)),
{
    let mut done: Vec<String> = Vec::new();
    let mut cur = String::new();
    let mut j: usize = start;
    assert(cs@.subrange(start as int, start as int) =~= Seq::<char>::empty());
    while j < cs.len()
        invariant
            start <= j <= cs@.len(),
            done@.map_values(|x: String| x@).push(cur@) == colon_parts(cs@.subrange(start as int, j as int)),
        decreases cs@.len() - j,
    {
        let c = cs[j];
        let ghost before = cs@.subrange(start as int, j as int);
        let ghost after = cs@.subrange(start as int, j + 1);
        assert(after.drop_last() =~= before);
        assert(after.last() == c);
        proof {
            lemma_colon_parts_nonempty(before);
        }
        let ghost dv = done@.map_values(|x: String| x@);
        if c == ':' {
            let finished = cur;
            done.push(finished);
            cur = String::new();
            assert(done@.map_values(|x: String| x@) =~= dv.push(finished@));
        } else {
            let ghost old_cur = cur@;
            crate::text::push_char(&mut cur, c);
            assert(dv.push(cur@) =~= dv.push(old_cur).update(dv.len() as int, old_cur.push(c)));
        }
        j = j + 1;
    }
    assert(cs@.subrange(start as int, cs@.len() as int) =~= cs@.skip(start as int));
    let ghost dv = done@.map_values(|x: String| x@);
    let last = cur;
    done.push(last);
    assert(done@.map_values(|x: String| x@) =~= dv.push(last@));
    done
}

/// Parses a decimal `u32`, giving 0 for anything else.
pub(crate) fn parse_u32_or_zero(s: &str) -> (r: u32)
    ensures
        r == u32_or_zero(s@),
{
    match parse_u64(s) {
        Some(v) => if v <= 0xffff_ffff {
            v as u32
        } else {
            0
        },
        None => 0,
    }
}

/// The transaction and output index an unspent-output key names: the text
/// after the leading `utxo:` prefixes must split at `:` into exactly two
/// pieces; the index is 0 when the second piece is no `u32`.
pub open spec fn utxo_key_parts(key: Seq<char>) -> Option<(Seq<char>, u32)> {
    let ps = colon_parts(strip_all(key, "utxo:"@));
    if ps.len() == 2 {
        Some((ps[0], u32_or_zero(ps[1])))
    } else {
        None
    }
}

/// Reads an unspent-output key as stored (see `utxo_key_parts`).
pub fn parse_utxo_key(key: &[u8]) -> (r: Option<(String, u32)>)
    ensures
        match utxo_key_parts(lossy_text(key@)) {
            Some((t, v)) => r matches Some((a, b)) && a@ == t && b == v,
            None => r is None,
        },
{
    let text = utf8_lossy(key);
    let cs = crate::text::chars_of(text.as_str());
    proof {
        reveal_strlit("utxo:");
    }
    let prefix = crate::text::chars_of("utxo:");
    assert(prefix@.len() == 5);
    let mut i: usize = 0;
    assert(cs@.skip(0) =~= cs@);
    while cs.len() - i >= 5 && cs[i] == prefix[0] && cs[i + 1] == prefix[1] && cs[i + 2] == prefix[2]
        && cs[i + 3] == prefix[3] && cs[i + 4] == prefix[4]
        invariant
            i <= cs@.len(),
            prefix@ == "utxo:"@,
            prefix@.len() == 5,
            strip_all(cs@, "utxo:"@) == strip_all(cs@.skip(i as int), "utxo:"@),
        decreases cs@.len() - i,
    {
        let ghost rest = cs@.skip(i as int);
        assert(rest.take(5) =~= "utxo:"@);
        assert(rest.skip(5) =~= cs@.skip(i + 5));
        i = i + 5;
    }
    proof {
        let rest = cs@.skip(i as int);
        if 5 <= rest.len() {
            assert(rest.take(5) != "utxo:"@) by {
                if rest.take(5) == "utxo:"@ {
                    assert(rest.take(5)[0] == cs@[i as int]);
                    assert(rest.take(5)[1] == cs@[i + 1]);
                    assert(rest.take(5)[2] == cs@[i + 2]);
                    assert(rest.take(5)[3] == cs@[i + 3]);
                    assert(rest.take(5)[4] == cs@[i + 4]);
                }
            }
        }
        assert(strip_all(rest, "utxo:"@) == rest);
    }
    let parts = colon_pieces(&cs, i);
    let ghost pv = parts@.map_values(|x: String| x@);
    if parts.len() == 2 {
        assert(pv[0] == parts@[0]@);
        assert(pv[1] == parts@[1]@);
        let v = parse_u32_or_zero(parts[1].as_str());
        Some((parts[0].clone(), v))
    } else {
        None
    }
}

} // verus!
