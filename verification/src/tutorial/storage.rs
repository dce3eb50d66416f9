//! Key-value storage for blocks: a storage interface, an in-memory store,
//! and block records on top of any store.
use vstd::prelude::*;
use crate::keymap::KeyMap;
use crate::text::{push_str, push_decimal, decimal, parse_u64_spec};

verus! {

/// A key-value store of strings.
pub trait Storage: Sized {
    /// What the store holds.
    spec fn contents(&self) -> Map<Seq<char>, Seq<char>>;

    /// The store is one whose operations cannot fail (memory, say).
    spec fn never_fails(&self) -> bool;

    /// Stores `value` under `key`.
    fn put(&mut self, key: &str, value: &str) -> (r: Result<(), String>)
        ensures
            r is Ok ==> final(self).contents() == old(self).contents().insert(key@, value@),
            old(self).never_fails() ==> r is Ok && final(self).never_fails(),
    ;

    /// The value under `key`, if any.
    fn get(&self, key: &str) -> (r: Result<Option<String>, String>)
        ensures
            r matches Ok(Some(v)) ==> self.contents().contains_key(key@) && v@ == self.contents()[key@],
            r matches Ok(None) ==> !self.contents().contains_key(key@),
            self.never_fails() ==> r is Ok,
    ;

    /// Removes `key`.
    fn delete(&mut self, key: &str) -> (r: Result<(), String>)
        ensures
            r is Ok ==> final(self).contents() == old(self).contents().remove(key@),
            old(self).never_fails() ==> r is Ok && final(self).never_fails(),
    ;
}

/// A store in memory; it never fails.
pub struct MemoryStorage {
    data: KeyMap<String, String>,
}

impl MemoryStorage {
    /// An empty store.
    pub fn new() -> (r: Self)
        ensures
            r.contents() == Map::<Seq<char>, Seq<char>>::empty(),
            r.never_fails(),
    {
        let r = MemoryStorage { data: KeyMap::new() };
        assert(r.contents() =~= Map::<Seq<char>, Seq<char>>::empty());
        r
    }
}

impl Storage for MemoryStorage {
    closed spec fn contents(&self) -> Map<Seq<char>, Seq<char>> {
        Map::new(|k: Seq<char>| self.data@.contains_key(k), |k: Seq<char>| self.data@[k]@)
    }

    open spec fn never_fails(&self) -> bool {
        true
    }

    fn put(&mut self, key: &str, value: &str) -> (r: Result<(), String>)
        ensures
            r is Ok,
    {
        self.data.insert(key.to_string(), value.to_string());
        assert(self.contents() =~= old(self).contents().insert(key@, value@));
        Ok(())
    }

    fn get(&self, key: &str) -> (r: Result<Option<String>, String>)
        ensures
            r is Ok,
    {
        match self.data.get(&key.to_string()) {
            Some(v) => Ok(Some(v.clone())),
            None => Ok(None),
        }
    }

    fn delete(&mut self, key: &str) -> (r: Result<(), String>)
        ensures
            r is Ok,
    {
        self.data.remove(&key.to_string());
        assert(self.contents() =~= old(self).contents().remove(key@));
        Ok(())
    }
}

/// `str::parse::<u64>`, the error rendered with `to_string`; the text of the
/// error is not stated.
#[verifier::external_body]
fn parse_u64_or_message(s: &str) -> (r: Result<u64, String>)
    ensures
        r matches Ok(v) ==> parse_u64_spec(s@) == Some(v),
        r is Err ==> parse_u64_spec(s@) is None,
{
    s.parse::<u64>().map_err(|e| e.to_string())
}

/// The key of the block at `height`: `block:<height>`.
pub open spec fn block_key(height: u64) -> Seq<char> {
    "block:"@ + decimal(height as nat)
}

/// The key of the height of the block with `hash`: `hash:<hash>`.
pub open spec fn hash_key(hash: Seq<char>) -> Seq<char> {
    "hash:"@ + hash
}

/// The key of the latest height.
pub open spec fn latest_key() -> Seq<char> {
    "meta:latest_height"@
}

/// Blocks kept in a store.
pub struct BlockchainStorage<S: Storage> {
    storage: S,
}

impl<S: Storage> BlockchainStorage<S> {
    /// What the underlying store holds.
    pub closed spec fn contents(&self) -> Map<Seq<char>, Seq<char>> {
        self.storage.contents()
    }

    /// Whether the underlying store cannot fail.
    pub closed spec fn never_fails(&self) -> bool {
        self.storage.never_fails()
    }

    pub fn new(storage: S) -> (r: Self)
        ensures
            r.contents() == storage.contents(),
            r.never_fails() == storage.never_fails(),
    {
        BlockchainStorage { storage }
    }

    /// Stores the block data under its height, its height under its hash, and
    /// the height as the latest; the first failing write is returned.
    pub fn save_block(&mut self, height: u64, hash: &str, data: &str) -> (r: Result<(), String>)
        ensures
            r is Ok ==> final(self).contents() == old(self).contents().insert(block_key(height), data@).insert(
                hash_key(hash@),
                decimal(height as nat),
            ).insert(latest_key(), decimal(height as nat)),
            old(self).never_fails() ==> r is Ok && final(self).never_fails(),
    {
        let mut key = String::new();
        proof {
            reveal_strlit("block:");
            reveal_strlit("hash:");
            reveal_strlit("meta:latest_height");
        }
        push_str(&mut key, "block:");
        push_decimal(&mut key, height);
        match self.storage.put(key.as_str(), data) {
            Ok(()) => {},
            Err(e) => {
                return Err(e);
            },
        }
        let mut hash_key_s = String::new();
        push_str(&mut hash_key_s, "hash:");
        push_str(&mut hash_key_s, hash);
        let mut h = String::new();
        push_decimal(&mut h, height);
        match self.storage.put(hash_key_s.as_str(), h.as_str()) {
            Ok(()) => {},
            Err(e) => {
                return Err(e);
            },
        }
        match self.storage.put("meta:latest_height", h.as_str()) {
            Ok(()) => {},
            Err(e) => {
                return Err(e);
            },
        }
        Ok(())
    }

    /// The data stored for the block at `height`.
    pub fn get_block(&self, height: u64) -> (r: Result<Option<String>, String>)
        ensures
            r matches Ok(Some(v)) ==> self.contents().contains_key(block_key(height)) && v@
                == self.contents()[block_key(height)],
            r matches Ok(None) ==> !self.contents().contains_key(block_key(height)),
            self.never_fails() ==> r is Ok,
    {
        let mut key = String::new();
        proof {
            reveal_strlit("block:");
        }
        push_str(&mut key, "block:");
        push_decimal(&mut key, height);
        self.storage.get(key.as_str())
    }

    /// The latest height stored; 0 when none is.
    pub fn get_latest_height(&self) -> (r: Result<u64, String>)
        ensures
            r matches Ok(h) ==> (!self.contents().contains_key(latest_key()) && h == 0) || (
            self.contents().contains_key(latest_key()) && parse_u64_spec(
                self.contents()[latest_key()],
            ) == Some(h)),
            self.never_fails() ==> (r is Ok <==> (!self.contents().contains_key(latest_key())
                || parse_u64_spec(self.contents()[latest_key()]) is Some)),
            self.never_fails() ==> (r matches Err(m) ==> m@.take(13) == "Parse error: "@),
    {
        proof {
            reveal_strlit("meta:latest_height");
        }
        match self.storage.get("meta:latest_height") {
            Ok(Some(h)) => match parse_u64_or_message(h.as_str()) {
                Ok(v) => Ok(v),
                Err(e) => {
                    let mut m = String::new();
                    proof {
                        reveal_strlit("Parse error: ");
                    }
                    push_str(&mut m, "Parse error: ");
                    push_str(&mut m, e.as_str());
                    assert(m@.take(13) =~= "Parse error: "@);
                    Err(m)
                },
            },
            Ok(None) => Ok(0),
            Err(e) => Err(e),
        }
    }
}

} // verus!
