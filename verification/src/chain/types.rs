//! Blocks, transactions and UTXO entries, with their hashes, Merkle roots
//! and proof-of-work.
use vstd::prelude::*;
use crate::crypto::{sha256_hex, sha256_hex_spec};
use crate::keymap::{KeyMap, distinct_keys, entries_map};
use crate::text::{
    push_str, push_char, push_decimal, push_signed_decimal, decimal, signed_decimal, repeat,
    repeat_char, starts_with, occurs_at, str_eq, debug_str, str_debug,
};
use vstd::string::StrSliceExecFns;

verus! {

pub type Hash = String;

pub type Address = String;

pub type Amount = u64;

pub type TxId = String;

/// Leading zeros required of a block hash.
pub const DIFFICULTY: usize = 4;

/// Block reward: one coin of 100,000,000 base units.
pub const MINING_REWARD: u64 = 100_000_000;

/// The text of the genesis block.
pub const GENESIS_DATA: &'static str = "YRust Chain Genesis Block - 2024";

/// A reference to an earlier output with its unlocking data.
#[derive(Debug, Clone)]
pub struct TxInput {
    pub tx_id: String,
    pub vout: u32,
    pub script_sig: ScriptSig,
}

/// An amount locked to an address.
#[derive(Debug, Clone)]
pub struct TxOutput {
    pub value: u64,
    pub script_pubkey: String,
}

/// Signature and public key that unlock an input.
#[derive(Debug, Clone)]
pub struct ScriptSig {
    pub signature: Vec<u8>,
    pub pubkey: Vec<u8>,
}

/// A transaction; its id is the hash of its contents.
#[derive(Debug, Clone)]
pub struct Transaction {
    pub id: String,
    pub timestamp: i64,
    pub inputs: Vec<TxInput>,
    pub outputs: Vec<TxOutput>,
    pub version: u32,
}

#[derive(Debug, Clone)]
pub struct BlockHeader {
    pub version: u32,
    pub prev_hash: String,
    pub merkle_root: String,
    pub timestamp: i64,
    pub bits: u32,
    pub nonce: u64,
}

#[derive(Debug, Clone)]
pub struct Block {
    pub header: BlockHeader,
    pub height: u64,
    pub transactions: Vec<Transaction>,
    pub hash: String,
}

#[derive(Debug, Clone)]
pub struct UtxoEntry {
    pub tx_output: TxOutput,
    pub height: u64,
    pub is_coinbase: bool,
}

/// Height, tip, accumulated difficulty and pending transactions.
#[derive(Debug, Clone)]
pub struct BlockchainState {
    pub height: u64,
    pub best_block_hash: String,
    pub total_difficulty: u128,
    pub mempool: Vec<Transaction>,
}

impl Default for BlockchainState {
    fn default() -> (r: Self)
        ensures
            r.height == 0,
            r.best_block_hash@ == Seq::<char>::empty(),
            r.total_difficulty == 0,
            r.mempool@.len() == 0,
    {
        BlockchainState {
            height: 0,
            best_block_hash: String::new(),
            total_difficulty: 0,
            mempool: Vec::new(),
        }
    }
}


/// The current time in seconds since the Unix epoch (`chrono::Utc::now().timestamp()`).
/// Which time comes back is not stated.
#[verifier::external_body]
pub(crate) fn now_timestamp() -> (r: i64) {
    chrono::Utc::now().timestamp()
}

/// Items separated by `", "`.
pub open spec fn joined(items: Seq<Seq<char>>) -> Seq<char>
    decreases items.len(),
{
    if items.len() == 0 {
        Seq::empty()
    } else if items.len() == 1 {
        items[0]
    } else {
        joined(items.drop_last()) + ", "@ + items.last()
    }
}

/// A list in `Debug` form: `[a, b, c]`.
pub open spec fn list_text(items: Seq<Seq<char>>) -> Seq<char> {
    "["@ + joined(items) + "]"@
}

pub open spec fn byte_items(b: Seq<u8>) -> Seq<Seq<char>> {
    b.map_values(|x: u8| decimal(x as nat))
}

/// `Debug` of a `TxInput`.
pub open spec fn input_text(i: TxInput) -> Seq<char> {
    "TxInput { tx_id: "@ + str_debug(i.tx_id@) + ", vout: "@ + decimal(i.vout as nat)
        + ", script_sig: ScriptSig { signature: "@ + list_text(byte_items(i.script_sig.signature@))
        + ", pubkey: "@ + list_text(byte_items(i.script_sig.pubkey@)) + " } }"@
}

/// `Debug` of a `TxOutput`.
pub open spec fn output_text(o: TxOutput) -> Seq<char> {
    "TxOutput { value: "@ + decimal(o.value as nat) + ", script_pubkey: "@ + str_debug(
        o.script_pubkey@,
    ) + " }"@
}

pub open spec fn input_items(v: Seq<TxInput>) -> Seq<Seq<char>> {
    v.map_values(|i: TxInput| input_text(i))
}

pub open spec fn output_items(v: Seq<TxOutput>) -> Seq<Seq<char>> {
    v.map_values(|o: TxOutput| output_text(o))
}

/// What a transaction's hash is computed over.
pub open spec fn tx_hash_input(t: Transaction) -> Seq<char> {
    signed_decimal(t.timestamp as int) + list_text(input_items(t.inputs@)) + list_text(
        output_items(t.outputs@),
    ) + decimal(t.version as nat)
}

/// The hash of a transaction: hexadecimal SHA-256 of `tx_hash_input`.
pub open spec fn tx_hash(t: Transaction) -> Seq<char> {
    sha256_hex_spec(tx_hash_input(t))
}

/// Items signed for a transaction: `"txid:vout"` per input and
/// `"value:address"` per output, each in `Debug` form.
pub open spec fn sign_input_items(v: Seq<TxInput>) -> Seq<Seq<char>> {
    v.map_values(|i: TxInput| str_debug(i.tx_id@ + ":"@ + decimal(i.vout as nat)))
}

pub open spec fn sign_output_items(v: Seq<TxOutput>) -> Seq<Seq<char>> {
    v.map_values(|o: TxOutput| str_debug(decimal(o.value as nat) + ":"@ + o.script_pubkey@))
}

/// The text a transaction's signature covers (without signatures or keys).
pub open spec fn sign_text(t: Transaction) -> Seq<char> {
    list_text(sign_input_items(t.inputs@)) + list_text(sign_output_items(t.outputs@)) + decimal(
        t.version as nat,
    )
}

/// The id `"0"` marks the input of a coinbase transaction.
pub open spec fn is_zero_id(s: Seq<char>) -> bool {
    s == seq!['0']
}

pub open spec fn tx_is_coinbase(t: Transaction) -> bool {
    t.inputs@.len() == 1 && is_zero_id(t.inputs@[0].tx_id@)
}

/// A transaction is valid when its id is its hash and it has inputs and
/// outputs (a coinbase: exactly one of each).
pub open spec fn tx_valid(t: Transaction) -> bool {
    &&& t.id@ == tx_hash(t)
    &&& if tx_is_coinbase(t) {
        t.outputs@.len() == 1
    } else {
        t.inputs@.len() > 0 && t.outputs@.len() > 0
    }
}

/// Little-endian bytes of the low `k` bytes of `n`.
pub open spec fn le_bytes(n: nat, k: nat) -> Seq<u8>
    decreases k,
{
    if k == 0 {
        Seq::empty()
    } else {
        seq![(n % 256) as u8] + le_bytes(n / 256, (k - 1) as nat)
    }
}

/// What a block's hash is computed over.
pub open spec fn header_text(h: BlockHeader) -> Seq<char> {
    decimal(h.version as nat) + h.prev_hash@ + h.merkle_root@ + signed_decimal(h.timestamp as int)
        + decimal(h.bits as nat) + decimal(h.nonce as nat)
}

pub open spec fn block_hash(h: BlockHeader) -> Seq<char> {
    sha256_hex_spec(header_text(h))
}

/// `h` with nonce `n`.
pub open spec fn with_nonce(h: BlockHeader, n: u64) -> BlockHeader {
    BlockHeader { nonce: n, ..h }
}

/// The block hash `h` would have with nonce `n`.
pub open spec fn nonce_hash(h: BlockHeader, n: u64) -> Seq<char> {
    block_hash(with_nonce(h, n))
}

/// A hash meets difficulty `d` when it starts with `d` zeros.
pub open spec fn meets_difficulty(hash: Seq<char>, d: nat) -> bool {
    occurs_at(hash, repeat_char('0', d), 0)
}

pub open spec fn str_views(v: Seq<String>) -> Seq<Seq<char>> {
    v.map_values(|s: String| s@)
}

/// Pairs hashed together at the next level of a Merkle tree.
pub open spec fn merkle_pair(a: Seq<char>, b: Seq<char>) -> Seq<char> {
    sha256_hex_spec(a + b)
}

/// A level with its last hash repeated when it has an odd length.
pub open spec fn padded(h: Seq<Seq<char>>) -> Seq<Seq<char>> {
    if h.len() % 2 != 0 {
        h.push(h.last())
    } else {
        h
    }
}

pub open spec fn next_level(h: Seq<Seq<char>>) -> Seq<Seq<char>> {
    let p = padded(h);
    Seq::new(p.len() / 2, |i: int| merkle_pair(p[2 * i], p[2 * i + 1]))
}

/// The root reached by hashing pairs level by level.
pub open spec fn merkle_reduce(h: Seq<Seq<char>>) -> Seq<char>
    decreases h.len(),
{
    if h.len() <= 1 {
        h[0]
    } else {
        merkle_reduce(next_level(h))
    }
}

pub open spec fn tx_ids(txs: Seq<Transaction>) -> Seq<Seq<char>> {
    txs.map_values(|t: Transaction| t.id@)
}

/// The Merkle root of a list of transactions (`"0"` when there are none).
pub open spec fn merkle_root_of(txs: Seq<Transaction>) -> Seq<char> {
    if txs.len() == 0 {
        seq!['0']
    } else {
        merkle_reduce(tx_ids(txs))
    }
}

/// A block is valid at difficulty `d` when its cached hash is its header's
/// hash and meets `d`, all transactions are valid and the Merkle root matches.
pub open spec fn block_valid(b: Block, d: nat) -> bool {
    &&& b.hash@ == block_hash(b.header)
    &&& meets_difficulty(b.hash@, d)
    &&& forall|i: int| 0 <= i < b.transactions@.len() ==> tx_valid(#[trigger] b.transactions@[i])
    &&& b.header.merkle_root@ == merkle_root_of(b.transactions@)
}

pub proof fn lemma_joined_step(items: Seq<Seq<char>>, i: int)
    requires
        0 <= i < items.len(),
    ensures
        joined(items.take(i + 1)) == if i == 0 {
            items[0]
        } else {
            joined(items.take(i)) + ", "@ + items[i]
        },
{
    assert(items.take(i + 1).drop_last() =~= items.take(i));
}

/// Appends `", "` unless this is the first item, then the item.
pub fn push_item(out: &mut String, first: bool, item: &str)
    ensures
        final(out)@ == if first {
            old(out)@ + item@
        } else {
            old(out)@ + ", "@ + item@
        },
{
    if !first {
        push_str(out, ", ");
    }
    push_str(out, item);
    proof {
        if !first {
            assert(final(out)@ =~= old(out)@ + ", "@ + item@);
        }
    }
}

/// Appends `[b0, b1, ...]`.
pub fn push_bytes(out: &mut String, b: &[u8])
    ensures
        final(out)@ == old(out)@ + list_text(byte_items(b@)),
{
    let ghost base = out@;
    let ghost items = byte_items(b@);
    push_str(out, "[");
    let mut i: usize = 0;
    while i < b.len()
        invariant
            i <= b@.len(),
            items == byte_items(b@),
            items.len() == b@.len(),
            out@ == base + "["@ + joined(items.take(i as int)),
        decreases b@.len() - i,
    {
        let mut s = String::new();
        push_decimal(&mut s, b[i] as u64);
        assert(s@ == items[i as int]);
        let ghost before = out@;
        push_item(out, i == 0, s.as_str());
        proof {
            lemma_joined_step(items, i as int);
            if i == 0 {
                assert(items.take(0) =~= Seq::<Seq<char>>::empty());
            }
            assert(out@ =~= base + "["@ + joined(items.take(i + 1)));
        }
        i = i + 1;
    }
    push_str(out, "]");
    assert(items.take(b@.len() as int) =~= items);
    assert(out@ =~= base + list_text(items));
}

fn push_input(out: &mut String, i: &TxInput)
    ensures
        final(out)@ == old(out)@ + input_text(*i),
{
    let ghost base = out@;
    push_str(out, "TxInput { tx_id: ");
    let d = debug_str(i.tx_id.as_str());
    push_str(out, d.as_str());
    push_str(out, ", vout: ");
    push_decimal(out, i.vout as u64);
    push_str(out, ", script_sig: ScriptSig { signature: ");
    push_bytes(out, i.script_sig.signature.as_slice());
    push_str(out, ", pubkey: ");
    push_bytes(out, i.script_sig.pubkey.as_slice());
    push_str(out, " } }");
    assert(out@ =~= base + input_text(*i));
}

fn push_output(out: &mut String, o: &TxOutput)
    ensures
        final(out)@ == old(out)@ + output_text(*o),
{
    let ghost base = out@;
    push_str(out, "TxOutput { value: ");
    push_decimal(out, o.value);
    push_str(out, ", script_pubkey: ");
    let d = debug_str(o.script_pubkey.as_str());
    push_str(out, d.as_str());
    push_str(out, " }");
    assert(out@ =~= base + output_text(*o));
}

fn push_inputs(out: &mut String, v: &Vec<TxInput>)
    ensures
        final(out)@ == old(out)@ + list_text(input_items(v@)),
{
    let ghost base = out@;
    let ghost items = input_items(v@);
    push_str(out, "[");
    let mut i: usize = 0;
    while i < v.len()
        invariant
            i <= v@.len(),
            items == input_items(v@),
            items.len() == v@.len(),
            out@ == base + "["@ + joined(items.take(i as int)),
        decreases v@.len() - i,
    {
        let mut s = String::new();
        push_input(&mut s, &v[i]);
        assert(s@ =~= items[i as int]);
        push_item(out, i == 0, s.as_str());
        proof {
            lemma_joined_step(items, i as int);
            if i == 0 {
                assert(items.take(0) =~= Seq::<Seq<char>>::empty());
            }
            assert(out@ =~= base + "["@ + joined(items.take(i + 1)));
        }
        i = i + 1;
    }
    push_str(out, "]");
    assert(items.take(v@.len() as int) =~= items);
    assert(out@ =~= base + list_text(items));
}

fn push_outputs(out: &mut String, v: &Vec<TxOutput>)
    ensures
        final(out)@ == old(out)@ + list_text(output_items(v@)),
{
    let ghost base = out@;
    let ghost items = output_items(v@);
    push_str(out, "[");
    let mut i: usize = 0;
    while i < v.len()
        invariant
            i <= v@.len(),
            items == output_items(v@),
            items.len() == v@.len(),
            out@ == base + "["@ + joined(items.take(i as int)),
        decreases v@.len() - i,
    {
        let mut s = String::new();
        push_output(&mut s, &v[i]);
        assert(s@ =~= items[i as int]);
        push_item(out, i == 0, s.as_str());
        proof {
            lemma_joined_step(items, i as int);
            if i == 0 {
                assert(items.take(0) =~= Seq::<Seq<char>>::empty());
            }
            assert(out@ =~= base + "["@ + joined(items.take(i + 1)));
        }
        i = i + 1;
    }
    push_str(out, "]");
    assert(items.take(v@.len() as int) =~= items);
    assert(out@ =~= base + list_text(items));
}

/// Little-endian bytes of `n` (`n.to_le_bytes()`).
pub fn u64_le_bytes(n: u64) -> (r: Vec<u8>)
    ensures
        r@ == le_bytes(n as nat, 8),
{
    let mut r: Vec<u8> = Vec::new();
    let mut x: u64 = n;
    let mut i: usize = 0;
    while i < 8
        invariant
            i <= 8,
            r@ + le_bytes(x as nat, (8 - i) as nat) == le_bytes(n as nat, 8),
        decreases 8 - i,
    {
        let ghost r0 = r@;
        r.push((x % 256) as u8);
        assert(le_bytes(x as nat, (8 - i) as nat) == seq![(x % 256) as u8] + le_bytes(
            (x / 256) as nat,
            (8 - i - 1) as nat,
        ));
        assert(r@ + le_bytes((x / 256) as nat, (8 - i - 1) as nat) =~= r0 + le_bytes(
            x as nat,
            (8 - i) as nat,
        ));
        x = x / 256;
        i = i + 1;
    }
    assert(r@ + le_bytes(x as nat, 0) =~= r@);
    r
}

impl Transaction {
    /// A version-1 transaction stamped with the current time; its id is its hash.
    pub fn new(inputs: Vec<TxInput>, outputs: Vec<TxOutput>) -> (r: Self)
        ensures
            r.inputs@ == inputs@,
            r.outputs@ == outputs@,
            r.version == 1,
            r.id@ == tx_hash(r),
    {
        Self::new_at(inputs, outputs, now_timestamp())
    }

    /// A version-1 transaction stamped with `timestamp`; its id is its hash.
    pub fn new_at(inputs: Vec<TxInput>, outputs: Vec<TxOutput>, timestamp: i64) -> (r: Self)
        ensures
            r.inputs@ == inputs@,
            r.outputs@ == outputs@,
            r.version == 1,
            r.timestamp == timestamp,
            r.id@ == tx_hash(r),
    {
        let mut tx = Transaction { id: String::new(), timestamp, inputs, outputs, version: 1 };
        tx.id = tx.calculate_hash();
        tx
    }

    /// The coinbase transaction paying `reward` to `to`, stamped with the current time.
    pub fn new_coinbase(to: String, reward: u64, nonce: u64) -> (r: Self)
        ensures
            Self::is_coinbase_of(r, to@, reward, nonce),
    {
        Self::new_coinbase_at(to, reward, nonce, now_timestamp())
    }

    /// The coinbase transaction shape: one input `"0":0` whose signature is
    /// the nonce in little-endian bytes, one output of `reward` to `to`.
    pub open spec fn is_coinbase_of(t: Self, to: Seq<char>, reward: u64, nonce: u64) -> bool {
        &&& t.inputs@.len() == 1
        &&& is_zero_id(t.inputs@[0].tx_id@)
        &&& t.inputs@[0].vout == 0
        &&& t.inputs@[0].script_sig.signature@ == le_bytes(nonce as nat, 8)
        &&& t.inputs@[0].script_sig.pubkey@.len() == 0
        &&& t.outputs@.len() == 1
        &&& t.outputs@[0].value == reward
        &&& t.outputs@[0].script_pubkey@ == to
        &&& t.version == 1
        &&& t.id@ == tx_hash(t)
    }

    /// The coinbase transaction stamped with `timestamp`.
    pub fn new_coinbase_at(to: String, reward: u64, nonce: u64, timestamp: i64) -> (r: Self)
        ensures
            Self::is_coinbase_of(r, to@, reward, nonce),
            r.timestamp == timestamp,
    {
        let mut zero = String::new();
        push_char(&mut zero, '0');
        let input = TxInput {
            tx_id: zero,
            vout: 0,
            script_sig: ScriptSig { signature: u64_le_bytes(nonce), pubkey: Vec::new() },
        };
        let output = TxOutput { value: reward, script_pubkey: to };
        let mut inputs = Vec::new();
        inputs.push(input);
        let mut outputs = Vec::new();
        outputs.push(output);
        let mut tx = Transaction { id: String::new(), timestamp, inputs, outputs, version: 1 };
        tx.id = tx.calculate_hash();
        tx
    }

    /// Hexadecimal SHA-256 of the timestamp, the inputs and outputs in
    /// `Debug` form and the version.
    pub fn calculate_hash(&self) -> (r: String)
        ensures
            r@ == tx_hash(*self),
    {
        let mut data = String::new();
        push_signed_decimal(&mut data, self.timestamp);
        push_inputs(&mut data, &self.inputs);
        push_outputs(&mut data, &self.outputs);
        push_decimal(&mut data, self.version as u64);
        assert(data@ =~= tx_hash_input(*self));
        sha256_hex(data.as_str())
    }

    /// The bytes a signature covers: the UTF-8 of `sign_text`.
    pub fn serialize_for_sign(&self) -> (r: Vec<u8>)
        ensures
            r@ == vstd::utf8::encode_utf8(sign_text(*self)),
    {
        let mut data = String::new();
        let ghost items = sign_input_items(self.inputs@);
        push_str(&mut data, "[");
        let mut i: usize = 0;
        while i < self.inputs.len()
            invariant
                i <= self.inputs@.len(),
                items == sign_input_items(self.inputs@),
                items.len() == self.inputs@.len(),
                data@ == "["@ + joined(items.take(i as int)),
            decreases self.inputs@.len() - i,
        {
            let mut s = String::new();
            push_str(&mut s, self.inputs[i].tx_id.as_str());
            push_char(&mut s, ':');
            push_decimal(&mut s, self.inputs[i].vout as u64);
            let d = debug_str(s.as_str());
            assert(s@ =~= self.inputs@[i as int].tx_id@ + ":"@ + decimal(
                self.inputs@[i as int].vout as nat,
            )) by {
                reveal_strlit(":");
            }
            assert(d@ == items[i as int]);
            push_item(&mut data, i == 0, d.as_str());
            proof {
                lemma_joined_step(items, i as int);
                if i == 0 {
                    assert(items.take(0) =~= Seq::<Seq<char>>::empty());
                }
                assert(data@ =~= "["@ + joined(items.take(i + 1)));
            }
            i = i + 1;
        }
        push_str(&mut data, "]");
        assert(items.take(self.inputs@.len() as int) =~= items);
        let ghost first = data@;
        assert(first =~= list_text(items));
        let ghost oitems = sign_output_items(self.outputs@);
        push_str(&mut data, "[");
        let mut j: usize = 0;
        while j < self.outputs.len()
            invariant
                j <= self.outputs@.len(),
                oitems == sign_output_items(self.outputs@),
                oitems.len() == self.outputs@.len(),
                data@ == first + "["@ + joined(oitems.take(j as int)),
            decreases self.outputs@.len() - j,
        {
            let mut s = String::new();
            push_decimal(&mut s, self.outputs[j].value);
            push_char(&mut s, ':');
            push_str(&mut s, self.outputs[j].script_pubkey.as_str());
            let d = debug_str(s.as_str());
            assert(s@ =~= decimal(self.outputs@[j as int].value as nat) + ":"@
                + self.outputs@[j as int].script_pubkey@) by {
                reveal_strlit(":");
            }
            assert(d@ == oitems[j as int]);
            push_item(&mut data, j == 0, d.as_str());
            proof {
                lemma_joined_step(oitems, j as int);
                if j == 0 {
                    assert(oitems.take(0) =~= Seq::<Seq<char>>::empty());
                }
                assert(data@ =~= first + "["@ + joined(oitems.take(j + 1)));
            }
            j = j + 1;
        }
        push_str(&mut data, "]");
        assert(oitems.take(self.outputs@.len() as int) =~= oitems);
        push_decimal(&mut data, self.version as u64);
        assert(data@ =~= sign_text(*self));
        crate::bytes::to_vec(data.as_str().as_bytes())
    }

    /// The bytes a signature is checked against (the same as for signing).
    pub fn serialize_for_verify(&self) -> (r: Vec<u8>)
        ensures
            r@ == vstd::utf8::encode_utf8(sign_text(*self)),
    {
        self.serialize_for_sign()
    }

    /// Whether the id matches the contents and the inputs and outputs have
    /// the right shape (see `tx_valid`).
    pub fn is_valid(&self) -> (r: bool)
        ensures
            r == tx_valid(*self),
    {
        let h = self.calculate_hash();
        if !str_eq(self.id.as_str(), h.as_str()) {
            return false;
        }
        if self.is_coinbase() {
            return self.outputs.len() == 1;
        }
        if self.inputs.len() == 0 || self.outputs.len() == 0 {
            return false;
        }
        true
    }

    /// One input, whose referenced id is `"0"`.
    pub fn is_coinbase(&self) -> (r: bool)
        ensures
            r == tx_is_coinbase(*self),
    {
        if self.inputs.len() != 1 {
            return false;
        }
        let id = &self.inputs[0].tx_id;
        let r = id.as_str().unicode_len() == 1 && id.as_str().get_char(0) == '0';
        assert(r == is_zero_id(id@)) by {
            if id@.len() == 1 && id@[0] == '0' {
                assert(id@ =~= seq!['0']);
            }
        }
        r
    }

    /// Inputs found in `utxo_set` minus outputs, or zero if the outputs are
    /// larger; zero for a coinbase.
    pub fn calculate_fee(&self, utxo_set: &KeyMap<(String, u32), TxOutput>) -> (r: u64)
        requires
            funded_sum(self.inputs@, utxo_set@) <= u64::MAX,
            output_sum(self.outputs@) <= u64::MAX,
        ensures
            r == if tx_is_coinbase(*self) {
                0
            } else if funded_sum(self.inputs@, utxo_set@) >= output_sum(self.outputs@) {
                funded_sum(self.inputs@, utxo_set@) - output_sum(self.outputs@)
            } else {
                0
            },
    {
        if self.is_coinbase() {
            return 0;
        }
        let mut input_sum: u64 = 0;
        let mut i: usize = 0;
        while i < self.inputs.len()
            invariant
                i <= self.inputs@.len(),
                input_sum == funded_sum(self.inputs@.take(i as int), utxo_set@),
                funded_sum(self.inputs@, utxo_set@) <= u64::MAX,
            decreases self.inputs@.len() - i,
        {
            proof {
                assert(self.inputs@.take(i + 1).drop_last() =~= self.inputs@.take(i as int));
                lemma_funded_prefix(self.inputs@, utxo_set@, i + 1);
            }
            let key = (self.inputs[i].tx_id.clone(), self.inputs[i].vout);
            match utxo_set.get(&key) {
                Some(o) => {
                    input_sum = input_sum + o.value;
                },
                None => {},
            }
            i = i + 1;
        }
        assert(self.inputs@.take(self.inputs@.len() as int) =~= self.inputs@);
        let output_total = sum_outputs(&self.outputs);
        if input_sum >= output_total {
            input_sum - output_total
        } else {
            0
        }
    }
}

/// Sum of the values of the outputs that the inputs refer to in `utxo`.
pub open spec fn funded_sum(inputs: Seq<TxInput>, utxo: Map<(Seq<char>, u32), TxOutput>) -> int
    decreases inputs.len(),
{
    if inputs.len() == 0 {
        0
    } else {
        let k = (inputs.last().tx_id@, inputs.last().vout);
        funded_sum(inputs.drop_last(), utxo) + if utxo.contains_key(k) {
            utxo[k].value as int
        } else {
            0
        }
    }
}

pub proof fn lemma_funded_prefix(inputs: Seq<TxInput>, utxo: Map<(Seq<char>, u32), TxOutput>, i: int)
    requires
        0 <= i <= inputs.len(),
    ensures
        0 <= funded_sum(inputs.take(i), utxo) <= funded_sum(inputs, utxo),
    decreases inputs.len() - i,
{
    lemma_funded_nonneg(inputs.take(i), utxo);
    if i < inputs.len() {
        lemma_funded_prefix(inputs, utxo, i + 1);
        assert(inputs.take(i + 1).drop_last() =~= inputs.take(i));
    } else {
        assert(inputs.take(i) =~= inputs);
    }
}

pub proof fn lemma_funded_nonneg(inputs: Seq<TxInput>, utxo: Map<(Seq<char>, u32), TxOutput>)
    ensures
        funded_sum(inputs, utxo) >= 0,
    decreases inputs.len(),
{
    if inputs.len() > 0 {
        lemma_funded_nonneg(inputs.drop_last(), utxo);
    }
}

/// Sum of the output values.
pub open spec fn output_sum(outputs: Seq<TxOutput>) -> int
    decreases outputs.len(),
{
    if outputs.len() == 0 {
        0
    } else {
        output_sum(outputs.drop_last()) + outputs.last().value
    }
}

pub proof fn lemma_output_prefix(outputs: Seq<TxOutput>, i: int)
    requires
        0 <= i <= outputs.len(),
    ensures
        0 <= output_sum(outputs.take(i)) <= output_sum(outputs),
    decreases outputs.len() - i,
{
    lemma_output_nonneg(outputs.take(i));
    if i < outputs.len() {
        lemma_output_prefix(outputs, i + 1);
        assert(outputs.take(i + 1).drop_last() =~= outputs.take(i));
    } else {
        assert(outputs.take(i) =~= outputs);
    }
}

pub proof fn lemma_output_nonneg(outputs: Seq<TxOutput>)
    ensures
        output_sum(outputs) >= 0,
    decreases outputs.len(),
{
    if outputs.len() > 0 {
        lemma_output_nonneg(outputs.drop_last());
    }
}

/// Sum of the output values, when it fits in a `u64`.
pub fn sum_outputs(outputs: &Vec<TxOutput>) -> (r: u64)
    requires
        output_sum(outputs@) <= u64::MAX,
    ensures
        r == output_sum(outputs@),
{
    let mut total: u64 = 0;
    let mut i: usize = 0;
    while i < outputs.len()
        invariant
            i <= outputs@.len(),
            total == output_sum(outputs@.take(i as int)),
            output_sum(outputs@) <= u64::MAX,
        decreases outputs@.len() - i,
    {
        proof {
            assert(outputs@.take(i + 1).drop_last() =~= outputs@.take(i as int));
            lemma_output_prefix(outputs@, i + 1);
        }
        total = total + outputs[i].value;
        i = i + 1;
    }
    assert(outputs@.take(outputs@.len() as int) =~= outputs@);
    total
}

/// The Merkle root over `hashes` (pairs hashed level by level, an odd last
/// hash paired with itself).
pub fn merkle_of_hashes(hashes: Vec<String>) -> (r: String)
    requires
        hashes@.len() >= 1,
    ensures
        r@ == merkle_reduce(str_views(hashes@)),
{
    let mut hashes = hashes;
    let ghost start = str_views(hashes@);
        while hashes.len() > 1
            invariant
                hashes@.len() >= 1,
                merkle_reduce(str_views(hashes@)) == merkle_reduce(start),
            decreases hashes@.len(),
        {
            let ghost level = str_views(hashes@);
            if hashes.len() % 2 != 0 {
                let last = hashes[hashes.len() - 1].clone();
                hashes.push(last);
            }
            let ghost p = str_views(hashes@);
            assert(p =~= padded(level));
            let hl = hashes.len();
            let half = hl / 2;
            let mut next: Vec<String> = Vec::new();
            let mut j: usize = 0;
            while j < half
                invariant
                    half == hashes@.len() / 2,
                    hl == hashes@.len(),
                    p == str_views(hashes@),
                    p.len() == hashes@.len(),
                    j <= half,
                    next@.len() == j,
                    forall|k: int| 0 <= k < j ==> (#[trigger] next@[k])@ == next_level(level)[k],
                    p == padded(level),
                    next_level(level).len() == half,
                decreases half - j,
            {
                assert(2 * j + 1 < hashes@.len());
                let mut combined = hashes[2 * j].clone();
                push_str(&mut combined, hashes[2 * j + 1].as_str());
                assert(p[2 * j as int] == hashes@[2 * j as int]@);
                assert(p[2 * j + 1] == hashes@[2 * j + 1]@);
                next.push(sha256_hex(combined.as_str()));
                j = j + 1;
            }
            assert(str_views(next@) =~= next_level(level));
            hashes = next;
        }
        hashes[0].clone()
}

impl Block {
    /// A block stamped with the current time, nonce 0, its Merkle root and hash.
    pub fn new(height: u64, prev_hash: String, transactions: Vec<Transaction>, bits: u32) -> (r: Self)
        ensures
            r.height == height,
            r.header.version == 1,
            r.header.prev_hash@ == prev_hash@,
            r.header.bits == bits,
            r.header.nonce == 0,
            r.transactions@ == transactions@,
            r.header.merkle_root@ == merkle_root_of(transactions@),
            r.hash@ == block_hash(r.header),
    {
        Self::new_at(height, prev_hash, transactions, bits, now_timestamp())
    }

    /// A block stamped with `timestamp`.
    pub fn new_at(
        height: u64,
        prev_hash: String,
        transactions: Vec<Transaction>,
        bits: u32,
        timestamp: i64,
    ) -> (r: Self)
        ensures
            r.height == height,
            r.header.version == 1,
            r.header.prev_hash@ == prev_hash@,
            r.header.bits == bits,
            r.header.nonce == 0,
            r.header.timestamp == timestamp,
            r.transactions@ == transactions@,
            r.header.merkle_root@ == merkle_root_of(transactions@),
            r.hash@ == block_hash(r.header),
    {
        let merkle_root = Self::calculate_merkle_root(&transactions);
        let mut block = Block {
            header: BlockHeader { version: 1, prev_hash, merkle_root, timestamp, bits, nonce: 0 },
            height,
            transactions,
            hash: String::new(),
        };
        block.hash = block.calculate_hash();
        block
    }

    /// Hexadecimal SHA-256 of the header fields in order.
    pub fn calculate_hash(&self) -> (r: String)
        ensures
            r@ == block_hash(self.header),
    {
        let mut data = String::new();
        push_decimal(&mut data, self.header.version as u64);
        push_str(&mut data, self.header.prev_hash.as_str());
        push_str(&mut data, self.header.merkle_root.as_str());
        push_signed_decimal(&mut data, self.header.timestamp);
        push_decimal(&mut data, self.header.bits as u64);
        push_decimal(&mut data, self.header.nonce);
        assert(data@ =~= header_text(self.header));
        sha256_hex(data.as_str())
    }

    fn calculate_merkle_root(transactions: &Vec<Transaction>) -> (r: String)
        ensures
            r@ == merkle_root_of(transactions@),
    {
        if transactions.len() == 0 {
            let mut z = String::new();
            push_char(&mut z, '0');
            return z;
        }
        let mut hashes: Vec<String> = Vec::new();
        let mut i: usize = 0;
        while i < transactions.len()
            invariant
                i <= transactions@.len(),
                hashes@.len() == i,
                forall|k: int| 0 <= k < i ==> (#[trigger] hashes@[k])@ == transactions@[k].id@,
            decreases transactions@.len() - i,
        {
            hashes.push(transactions[i].id.clone());
            i = i + 1;
        }
        assert(str_views(hashes@) =~= tx_ids(transactions@));
        merkle_of_hashes(hashes)
    }

    /// Whether the hash starts with `difficulty` zeros.
    pub fn check_hash(&self, difficulty: usize) -> (r: bool)
        ensures
            r == meets_difficulty(self.hash@, difficulty as nat),
    {
        let target = repeat('0', difficulty);
        starts_with(self.hash.as_str(), target.as_str())
    }

    /// Searches nonces upward from the current one until the block hash
    /// meets `difficulty`; the search stops at the largest nonce.
    pub fn mine(&mut self, difficulty: usize)
        ensures
            final(self).height == old(self).height,
            final(self).transactions == old(self).transactions,
            final(self).header.version == old(self).header.version,
            final(self).header.prev_hash == old(self).header.prev_hash,
            final(self).header.merkle_root == old(self).header.merkle_root,
            final(self).header.timestamp == old(self).header.timestamp,
            final(self).header.bits == old(self).header.bits,
            final(self).header.nonce >= old(self).header.nonce,
            final(self).hash@ == block_hash(final(self).header),
            meets_difficulty(final(self).hash@, difficulty as nat) || final(self).header.nonce
                == u64::MAX,
            forall|n: u64|
                old(self).header.nonce <= n < final(self).header.nonce ==> !meets_difficulty(
                    #[trigger] nonce_hash(final(self).header, n),
                    difficulty as nat,
                ),
    {
        let target = repeat('0', difficulty);
        let ghost n0 = self.header.nonce;
        loop
            invariant_except_break
                self.height == old(self).height,
                self.transactions == old(self).transactions,
                self.header.version == old(self).header.version,
                self.header.prev_hash == old(self).header.prev_hash,
                self.header.merkle_root == old(self).header.merkle_root,
                self.header.timestamp == old(self).header.timestamp,
                self.header.bits == old(self).header.bits,
                self.header.nonce >= n0,
                n0 == old(self).header.nonce,
                target@ == repeat_char('0', difficulty as nat),
                forall|n: u64|
                    n0 <= n < self.header.nonce ==> !meets_difficulty(
                        #[trigger] nonce_hash(self.header, n),
                        difficulty as nat,
                    ),
            ensures
                self.height == old(self).height,
                self.transactions == old(self).transactions,
                self.header.version == old(self).header.version,
                self.header.prev_hash == old(self).header.prev_hash,
                self.header.merkle_root == old(self).header.merkle_root,
                self.header.timestamp == old(self).header.timestamp,
                self.header.bits == old(self).header.bits,
                self.header.nonce >= n0,
                self.hash@ == block_hash(self.header),
                meets_difficulty(self.hash@, difficulty as nat) || self.header.nonce == u64::MAX,
                forall|n: u64|
                    n0 <= n < self.header.nonce ==> !meets_difficulty(
                        #[trigger] nonce_hash(self.header, n),
                        difficulty as nat,
                    ),
            decreases u64::MAX - self.header.nonce,
        {
            self.hash = self.calculate_hash();
            if starts_with(self.hash.as_str(), target.as_str()) {
                break;
            }
            if self.header.nonce == u64::MAX {
                break;
            }
            let ghost h0 = self.header;
            assert(!meets_difficulty(block_hash(h0), difficulty as nat));
            assert(with_nonce(h0, h0.nonce) == h0);
            self.header.nonce = self.header.nonce + 1;
            proof {
                assert forall|n: u64|
                    n0 <= n < self.header.nonce implies !meets_difficulty(
                    #[trigger] nonce_hash(self.header, n),
                    difficulty as nat,
                ) by {
                    assert(with_nonce(self.header, n) == with_nonce(h0, n));
                    assert(nonce_hash(self.header, n) == nonce_hash(h0, n));
                    if n == h0.nonce {
                        assert(with_nonce(h0, n) == h0);
                        assert(nonce_hash(h0, n) == block_hash(h0));
                    } else {
                        assert(!meets_difficulty(nonce_hash(h0, n), difficulty as nat));
                    }
                }
            }
        }
    }

    /// Whether the block is valid at `difficulty` (see `block_valid`).
    pub fn is_valid(&self, difficulty: usize) -> (r: bool)
        ensures
            r == block_valid(*self, difficulty as nat),
    {
        let h = self.calculate_hash();
        if !str_eq(self.hash.as_str(), h.as_str()) {
            return false;
        }
        if !self.check_hash(difficulty) {
            return false;
        }
        let mut i: usize = 0;
        while i < self.transactions.len()
            invariant
                i <= self.transactions@.len(),
                forall|j: int| 0 <= j < i ==> tx_valid(#[trigger] self.transactions@[j]),
            decreases self.transactions@.len() - i,
        {
            if !self.transactions[i].is_valid() {
                return false;
            }
            i = i + 1;
        }
        let m = Self::calculate_merkle_root(&self.transactions);
        str_eq(self.header.merkle_root.as_str(), m.as_str())
    }

    /// The first transaction, if any.
    pub fn get_coinbase(&self) -> (r: Option<&Transaction>)
        ensures
            self.transactions@.len() == 0 ==> r is None,
            self.transactions@.len() > 0 ==> r == Some(&self.transactions@[0]),
    {
        if self.transactions.len() == 0 {
            None
        } else {
            Some(&self.transactions[0])
        }
    }
}

} // verus!
