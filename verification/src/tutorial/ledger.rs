//! A proof-of-work chain with coinbase rewards and an unspent-output set.
use vstd::prelude::*;
use crate::keymap::KeyMap;
use crate::crypto::{sha256_hex, sha256_hex_spec};
use crate::text::{
    push_str, push_char, push_decimal, decimal, repeat, repeat_char, starts_with, occurs_at, str_eq,
    str_debug, debug_str, bytes_debug, push_bytes_debug,
};
use crate::chain::types::{merkle_reduce, merkle_of_hashes, str_views, meets_difficulty};

verus! {

/// An output: an amount paid to an address.
pub struct TxOutput {
    pub address: String,
    pub amount: u64,
}

/// An input: the output it spends, with a signature.
pub struct TxInput {
    pub tx_id: String,
    pub output_index: u32,
    pub signature: Vec<u8>,
}

/// A transaction.
pub struct Transaction {
    pub id: String,
    pub inputs: Vec<TxInput>,
    pub outputs: Vec<TxOutput>,
    pub timestamp: u64,
}

/// A block header.
pub struct BlockHeader {
    pub version: u32,
    pub prev_hash: String,
    pub merkle_root: String,
    pub timestamp: u64,
    pub difficulty: u32,
    pub nonce: u64,
}

/// A block.
pub struct Block {
    pub height: u64,
    pub header: BlockHeader,
    pub hash: String,
    pub transactions: Vec<Transaction>,
    pub miner: String,
}

// ---------------------------------------------------------------------------
// Texts and hashes
// ---------------------------------------------------------------------------

/// What `{:?}` writes for an input.
pub open spec fn input_debug(i: TxInput) -> Seq<char> {
    "TxInput { tx_id: "@ + str_debug(i.tx_id@) + ", output_index: "@ + decimal(i.output_index as nat)
        + ", signature: "@ + bytes_debug(i.signature@) + " }"@
}

/// What `{:?}` writes for an output.
pub open spec fn output_debug(o: TxOutput) -> Seq<char> {
    "TxOutput { address: "@ + str_debug(o.address@) + ", amount: "@ + decimal(o.amount as nat) + " }"@
}

/// What `{:?}` writes for a list whose items are written `items`.
pub open spec fn list_debug(items: Seq<Seq<char>>) -> Seq<char> {
    "["@ + crate::chain::types::joined(items) + "]"@
}

/// The text a transaction is hashed over: its inputs and outputs as `{:?}`
/// writes them, then its timestamp.
pub open spec fn tx_text(tx: Transaction) -> Seq<char> {
    list_debug(tx.inputs@.map_values(|i: TxInput| input_debug(i))) + list_debug(
        tx.outputs@.map_values(|o: TxOutput| output_debug(o)),
    ) + decimal(tx.timestamp as nat)
}

/// The fields of a header joined with `|`.
pub open spec fn header_text(h: BlockHeader) -> Seq<char> {
    decimal(h.version as nat) + "|"@ + h.prev_hash@ + "|"@ + h.merkle_root@ + "|"@ + decimal(
        h.timestamp as nat,
    ) + "|"@ + decimal(h.difficulty as nat) + "|"@ + decimal(h.nonce as nat)
}

/// The hash of a header: SHA-256 (hexadecimal) applied twice to its text.
pub open spec fn header_hash(h: BlockHeader) -> Seq<char> {
    sha256_hex_spec(sha256_hex_spec(header_text(h)))
}

/// The hash `h` would have with nonce `n`.
pub open spec fn hash_at(h: BlockHeader, n: u64) -> Seq<char> {
    header_hash(BlockHeader { nonce: n, ..h })
}

/// The Merkle root over the transaction ids; 64 zeros when there are none.
pub open spec fn merkle_of_txs(txs: Seq<Transaction>) -> Seq<char> {
    if txs.len() == 0 {
        repeat_char('0', 64)
    } else {
        merkle_reduce(txs.map_values(|t: Transaction| t.id@))
    }
}

/// The id of a coinbase transaction.
pub open spec fn coinbase_id(miner: Seq<char>, timestamp: u64) -> Seq<char> {
    "coinbase_"@ + miner + "_"@ + decimal(timestamp as nat)
}

fn push_list_debug_inputs(s: &mut String, v: &Vec<TxInput>)
    ensures
        final(s)@ == old(s)@ + list_debug(v@.map_values(|i: TxInput| input_debug(i))),
{
    let ghost items = v@.map_values(|i: TxInput| input_debug(i));
    let mut inner = String::new();
    proof {
        reveal_strlit(", ");
        reveal_strlit("[");
        reveal_strlit("]");
        reveal_strlit("TxInput { tx_id: ");
        reveal_strlit(", output_index: ");
        reveal_strlit(", signature: ");
        reveal_strlit(" }");
        assert(items.take(0) =~= Seq::<Seq<char>>::empty());
    }
    let mut k: usize = 0;
    while k < v.len()
        invariant
            k <= v@.len(),
            items == v@.map_values(|i: TxInput| input_debug(i)),
            inner@ == crate::chain::types::joined(items.take(k as int)),
        decreases v@.len() - k,
    {
        proof {
            crate::chain::types::lemma_joined_step(items, k as int);
        }
        if k > 0 {
            push_str(&mut inner, ", ");
        }
        let i = &v[k];
        push_str(&mut inner, "TxInput { tx_id: ");
        let t = debug_str(i.tx_id.as_str());
        push_str(&mut inner, t.as_str());
        push_str(&mut inner, ", output_index: ");
        push_decimal(&mut inner, i.output_index as u64);
        push_str(&mut inner, ", signature: ");
        push_bytes_debug(&mut inner, &i.signature);
        push_str(&mut inner, " }");
        k = k + 1;
    }
    assert(items.take(k as int) =~= items);
    push_str(s, "[");
    push_str(s, inner.as_str());
    push_str(s, "]");
}

fn push_list_debug_outputs(s: &mut String, v: &Vec<TxOutput>)
    ensures
        final(s)@ == old(s)@ + list_debug(v@.map_values(|o: TxOutput| output_debug(o))),
{
    let ghost items = v@.map_values(|o: TxOutput| output_debug(o));
    let mut inner = String::new();
    proof {
        reveal_strlit(", ");
        reveal_strlit("[");
        reveal_strlit("]");
        reveal_strlit("TxOutput { address: ");
        reveal_strlit(", amount: ");
        reveal_strlit(" }");
        assert(items.take(0) =~= Seq::<Seq<char>>::empty());
    }
    let mut k: usize = 0;
    while k < v.len()
        invariant
            k <= v@.len(),
            items == v@.map_values(|o: TxOutput| output_debug(o)),
            inner@ == crate::chain::types::joined(items.take(k as int)),
        decreases v@.len() - k,
    {
        proof {
            crate::chain::types::lemma_joined_step(items, k as int);
        }
        if k > 0 {
            push_str(&mut inner, ", ");
        }
        let o = &v[k];
        push_str(&mut inner, "TxOutput { address: ");
        let t = debug_str(o.address.as_str());
        push_str(&mut inner, t.as_str());
        push_str(&mut inner, ", amount: ");
        push_decimal(&mut inner, o.amount);
        push_str(&mut inner, " }");
        k = k + 1;
    }
    assert(items.take(k as int) =~= items);
    push_str(s, "[");
    push_str(s, inner.as_str());
    push_str(s, "]");
}

/// The hash of a header (`header_hash`).
pub fn calculate_block_hash(header: &BlockHeader) -> (r: String)
    ensures
        r@ == header_hash(*header),
{
    let mut data = String::new();
    proof {
        reveal_strlit("|");
    }
    push_decimal(&mut data, header.version as u64);
    push_str(&mut data, "|");
    push_str(&mut data, header.prev_hash.as_str());
    push_str(&mut data, "|");
    push_str(&mut data, header.merkle_root.as_str());
    push_str(&mut data, "|");
    push_decimal(&mut data, header.timestamp);
    push_str(&mut data, "|");
    push_decimal(&mut data, header.difficulty as u64);
    push_str(&mut data, "|");
    push_decimal(&mut data, header.nonce);
    let first = sha256_hex(data.as_str());
    sha256_hex(first.as_str())
}

/// The Merkle root of the transactions (`merkle_of_txs`).
pub fn calculate_merkle_root(transactions: &[Transaction]) -> (r: String)
    ensures
        r@ == merkle_of_txs(transactions@),
{
    if transactions.len() == 0 {
        return repeat('0', 64);
    }
    let mut ids: Vec<String> = Vec::new();
    let mut i: usize = 0;
    while i < transactions.len()
        invariant
            i <= transactions@.len(),
            ids@.len() == i,
            forall|k: int| 0 <= k < i ==> (#[trigger] ids@[k])@ == transactions@[k].id@,
        decreases transactions@.len() - i,
    {
        ids.push(transactions[i].id.clone());
        i = i + 1;
    }
    assert(str_views(ids@) =~= transactions@.map_values(|t: Transaction| t.id@));
    merkle_of_hashes(ids)
}

impl Transaction {
    /// The reward `reward` to `miner` at `timestamp`: no inputs, one output.
    pub fn new_coinbase_at(miner: String, reward: u64, timestamp: u64) -> (r: Self)
        ensures
            r.id@ == coinbase_id(miner@, timestamp),
            r.inputs@.len() == 0,
            r.outputs@.len() == 1,
            r.outputs@[0].address@ == miner@,
            r.outputs@[0].amount == reward,
            r.timestamp == timestamp,
    {
        let mut id = String::new();
        proof {
            reveal_strlit("coinbase_");
            reveal_strlit("_");
        }
        push_str(&mut id, "coinbase_");
        push_str(&mut id, miner.as_str());
        push_str(&mut id, "_");
        push_decimal(&mut id, timestamp);
        let mut outputs: Vec<TxOutput> = Vec::new();
        outputs.push(TxOutput { address: miner, amount: reward });
        Transaction { id, inputs: Vec::new(), outputs, timestamp }
    }

    /// The reward `reward` to `miner`, stamped with the current time.
    pub fn new_coinbase(miner: String, reward: u64) -> (r: Self)
        ensures
            r.id@ == coinbase_id(miner@, r.timestamp),
            r.inputs@.len() == 0,
            r.outputs@.len() == 1,
            r.outputs@[0].address@ == miner@,
            r.outputs@[0].amount == reward,
    {
        Self::new_coinbase_at(miner, reward, crate::clock::unix_seconds())
    }

    /// Hexadecimal SHA-256 of `tx_text`.
    pub fn hash(&self) -> (r: String)
        ensures
            r@ == sha256_hex_spec(tx_text(*self)),
    {
        let mut data = String::new();
        push_list_debug_inputs(&mut data, &self.inputs);
        push_list_debug_outputs(&mut data, &self.outputs);
        push_decimal(&mut data, self.timestamp);
        sha256_hex(data.as_str())
    }

    /// A copy with the same content.
    pub fn duplicate(&self) -> (r: Self)
        ensures
            tx_same(r, *self),
    {
        let mut inputs: Vec<TxInput> = Vec::new();
        let mut i: usize = 0;
        while i < self.inputs.len()
            invariant
                i <= self.inputs@.len(),
                inputs@.len() == i,
                forall|k: int| 0 <= k < i ==> input_same(#[trigger] inputs@[k], self.inputs@[k]),
            decreases self.inputs@.len() - i,
        {
            let x = &self.inputs[i];
            inputs.push(TxInput { tx_id: x.tx_id.clone(), output_index: x.output_index, signature: crate::bytes::to_vec(x.signature.as_slice()) });
            i = i + 1;
        }
        let mut outputs: Vec<TxOutput> = Vec::new();
        let mut j: usize = 0;
        while j < self.outputs.len()
            invariant
                j <= self.outputs@.len(),
                outputs@.len() == j,
                forall|k: int| 0 <= k < j ==> output_same(#[trigger] outputs@[k], self.outputs@[k]),
            decreases self.outputs@.len() - j,
        {
            outputs.push(TxOutput { address: self.outputs[j].address.clone(), amount: self.outputs[j].amount });
            j = j + 1;
        }
        Transaction { id: self.id.clone(), inputs, outputs, timestamp: self.timestamp }
    }
}

/// Two inputs with the same content.
pub open spec fn input_same(a: TxInput, b: TxInput) -> bool {
    a.tx_id@ == b.tx_id@ && a.output_index == b.output_index && a.signature@ == b.signature@
}

/// Two outputs with the same content.
pub open spec fn output_same(a: TxOutput, b: TxOutput) -> bool {
    a.address@ == b.address@ && a.amount == b.amount
}

/// Two transactions with the same content.
pub open spec fn tx_same(a: Transaction, b: Transaction) -> bool {
    &&& a.id@ == b.id@
    &&& a.timestamp == b.timestamp
    &&& a.inputs@.len() == b.inputs@.len()
    &&& forall|k: int| 0 <= k < a.inputs@.len() ==> input_same(#[trigger] a.inputs@[k], b.inputs@[k])
    &&& a.outputs@.len() == b.outputs@.len()
    &&& forall|k: int| 0 <= k < a.outputs@.len() ==> output_same(#[trigger] a.outputs@[k], b.outputs@[k])
}

/// Two blocks with the same content.
pub open spec fn block_same(a: Block, b: Block) -> bool {
    &&& a.height == b.height
    &&& a.hash@ == b.hash@
    &&& a.miner@ == b.miner@
    &&& a.header.version == b.header.version
    &&& a.header.prev_hash@ == b.header.prev_hash@
    &&& a.header.merkle_root@ == b.header.merkle_root@
    &&& a.header.timestamp == b.header.timestamp
    &&& a.header.difficulty == b.header.difficulty
    &&& a.header.nonce == b.header.nonce
    &&& a.transactions@.len() == b.transactions@.len()
    &&& forall|k: int| 0 <= k < a.transactions@.len() ==> tx_same(#[trigger] a.transactions@[k], b.transactions@[k])
}

impl Block {
    /// A block at `height` after `prev_hash` holding `transactions`, stamped
    /// `timestamp`, with nonce 0, its Merkle root and its hash.
    pub fn new_at(height: u64, prev_hash: String, transactions: Vec<Transaction>, difficulty: u32, miner: String, timestamp: u64) -> (r: Self)
        ensures
            r.height == height,
            r.header.version == 1,
            r.header.prev_hash@ == prev_hash@,
            r.header.merkle_root@ == merkle_of_txs(transactions@),
            r.header.timestamp == timestamp,
            r.header.difficulty == difficulty,
            r.header.nonce == 0,
            r.hash@ == header_hash(r.header),
            r.transactions@ == transactions@,
            r.miner@ == miner@,
    {
        let merkle_root = calculate_merkle_root(transactions.as_slice());
        let header = BlockHeader { version: 1, prev_hash, merkle_root, timestamp, difficulty, nonce: 0 };
        let hash = calculate_block_hash(&header);
        Block { height, header, hash, transactions, miner }
    }

    /// `new_at` at the current time.
    pub fn new(height: u64, prev_hash: String, transactions: Vec<Transaction>, difficulty: u32, miner: String) -> (r: Self)
        ensures
            r.height == height,
            r.header.version == 1,
            r.header.prev_hash@ == prev_hash@,
            r.header.merkle_root@ == merkle_of_txs(transactions@),
            r.header.difficulty == difficulty,
            r.header.nonce == 0,
            r.hash@ == header_hash(r.header),
            r.transactions@ == transactions@,
            r.miner@ == miner@,
    {
        Self::new_at(height, prev_hash, transactions, difficulty, miner, crate::clock::unix_seconds())
    }

    /// Searches nonces upward until the hash starts with `difficulty` zeros
    /// and returns it; the search stops at the largest nonce.
    pub fn mine(&mut self) -> (r: String)
        ensures
            final(self).height == old(self).height,
            final(self).transactions == old(self).transactions,
            final(self).miner == old(self).miner,
            final(self).header.version == old(self).header.version,
            final(self).header.prev_hash == old(self).header.prev_hash,
            final(self).header.merkle_root == old(self).header.merkle_root,
            final(self).header.timestamp == old(self).header.timestamp,
            final(self).header.difficulty == old(self).header.difficulty,
            final(self).header.nonce >= old(self).header.nonce,
            final(self).hash@ == header_hash(final(self).header),
            r@ == final(self).hash@,
            meets_difficulty(r@, old(self).header.difficulty as nat) || final(self).header.nonce == u64::MAX,
            forall|n: u64|
                old(self).header.nonce <= n < final(self).header.nonce ==> !meets_difficulty(
                    #[trigger] hash_at(final(self).header, n),
                    old(self).header.difficulty as nat,
                ),
    {
        let target = repeat('0', self.header.difficulty as usize);
        let ghost n0 = self.header.nonce;
        loop
            invariant_except_break
                n0 == old(self).header.nonce,
                forall|n: u64|
                    n0 <= n < self.header.nonce ==> !meets_difficulty(
                        #[trigger] hash_at(self.header, n),
                        old(self).header.difficulty as nat,
                    ),
                self.height == old(self).height,
                self.transactions == old(self).transactions,
                self.miner == old(self).miner,
                self.header.version == old(self).header.version,
                self.header.prev_hash == old(self).header.prev_hash,
                self.header.merkle_root == old(self).header.merkle_root,
                self.header.timestamp == old(self).header.timestamp,
                self.header.difficulty == old(self).header.difficulty,
                self.header.nonce >= old(self).header.nonce,
                target@ == repeat_char('0', old(self).header.difficulty as nat),
            ensures
                self.height == old(self).height,
                self.transactions == old(self).transactions,
                self.miner == old(self).miner,
                self.header.version == old(self).header.version,
                self.header.prev_hash == old(self).header.prev_hash,
                self.header.merkle_root == old(self).header.merkle_root,
                self.header.timestamp == old(self).header.timestamp,
                self.header.difficulty == old(self).header.difficulty,
                self.header.nonce >= old(self).header.nonce,
                self.hash@ == header_hash(self.header),
                meets_difficulty(self.hash@, old(self).header.difficulty as nat) || self.header.nonce == u64::MAX,
                forall|n: u64|
                    n0 <= n < self.header.nonce ==> !meets_difficulty(
                        #[trigger] hash_at(self.header, n),
                        old(self).header.difficulty as nat,
                    ),
            decreases u64::MAX - self.header.nonce,
        {
            self.hash = calculate_block_hash(&self.header);
            if starts_with(self.hash.as_str(), target.as_str()) {
                break;
            }
            if self.header.nonce == u64::MAX {
                break;
            }
            let ghost h0 = self.header;
            assert(BlockHeader { nonce: h0.nonce, ..h0 } == h0);
            self.header.nonce = self.header.nonce + 1;
            proof {
                assert forall|n: u64|
                    n0 <= n < self.header.nonce implies !meets_difficulty(
                    #[trigger] hash_at(self.header, n),
                    old(self).header.difficulty as nat,
                ) by {
                    assert(BlockHeader { nonce: n, ..self.header } == BlockHeader { nonce: n, ..h0 });
                    assert(hash_at(self.header, n) == hash_at(h0, n));
                    if n == h0.nonce {
                        assert(hash_at(h0, n) == header_hash(h0));
                    }
                }
            }
        }
        self.hash.clone()
    }

    /// A copy with the same content.
    pub fn duplicate(&self) -> (r: Self)
        ensures
            block_same(r, *self),
    {
        let mut txs: Vec<Transaction> = Vec::new();
        let mut i: usize = 0;
        while i < self.transactions.len()
            invariant
                i <= self.transactions@.len(),
                txs@.len() == i,
                forall|k: int| 0 <= k < i ==> tx_same(#[trigger] txs@[k], self.transactions@[k]),
            decreases self.transactions@.len() - i,
        {
            txs.push(self.transactions[i].duplicate());
            i = i + 1;
        }
        Block {
            height: self.height,
            header: BlockHeader {
                version: self.header.version,
                prev_hash: self.header.prev_hash.clone(),
                merkle_root: self.header.merkle_root.clone(),
                timestamp: self.header.timestamp,
                difficulty: self.header.difficulty,
                nonce: self.header.nonce,
            },
            hash: self.hash.clone(),
            transactions: txs,
            miner: self.miner.clone(),
        }
    }
}


// ---------------------------------------------------------------------------
// The chain and its unspent outputs
// ---------------------------------------------------------------------------

/// The key of output `i` of transaction `id`: `<id>:<i>`.
pub open spec fn out_key(id: Seq<char>, i: nat) -> Seq<char> {
    id + ":"@ + decimal(i)
}

/// The unspent outputs as (address, amount) pairs by key.
pub open spec fn utxo_view(u: Map<Seq<char>, TxOutput>) -> Map<Seq<char>, (Seq<char>, u64)> {
    Map::new(|k: Seq<char>| u.contains_key(k), |k: Seq<char>| (u[k].address@, u[k].amount))
}

/// The set after the outputs spent by `inputs` are removed, in order.
pub open spec fn spend_inputs(u: Map<Seq<char>, (Seq<char>, u64)>, inputs: Seq<TxInput>) -> Map<Seq<char>, (Seq<char>, u64)>
    decreases inputs.len(),
{
    if inputs.len() == 0 {
        u
    } else {
        spend_inputs(u, inputs.drop_last()).remove(out_key(inputs.last().tx_id@, inputs.last().output_index as nat))
    }
}

/// The set after the outputs of transaction `id` are added, in order.
pub open spec fn add_outputs(u: Map<Seq<char>, (Seq<char>, u64)>, id: Seq<char>, outputs: Seq<TxOutput>) -> Map<Seq<char>, (Seq<char>, u64)>
    decreases outputs.len(),
{
    if outputs.len() == 0 {
        u
    } else {
        add_outputs(u, id, outputs.drop_last()).insert(
            out_key(id, (outputs.len() - 1) as nat),
            (outputs.last().address@, outputs.last().amount),
        )
    }
}

/// The set after the transactions, in order: each one's inputs spent, then its outputs added.
pub open spec fn apply_txs(u: Map<Seq<char>, (Seq<char>, u64)>, txs: Seq<Transaction>) -> Map<Seq<char>, (Seq<char>, u64)>
    decreases txs.len(),
{
    if txs.len() == 0 {
        u
    } else {
        let prev = apply_txs(u, txs.drop_last());
        add_outputs(spend_inputs(prev, txs.last().inputs@), txs.last().id@, txs.last().outputs@)
    }
}

/// The amounts held by `a` among the entries.
pub open spec fn held_by(es: Seq<(String, TxOutput)>, a: Seq<char>) -> int
    decreases es.len(),
{
    if es.len() == 0 {
        0
    } else {
        held_by(es.drop_last(), a) + if es.last().1.address@ == a {
            es.last().1.amount as int
        } else {
            0
        }
    }
}

proof fn lemma_held_prefix(es: Seq<(String, TxOutput)>, a: Seq<char>, i: int)
    requires
        0 <= i <= es.len(),
    ensures
        0 <= held_by(es.take(i), a) <= held_by(es, a),
    decreases es.len(),
{
    if i < es.len() {
        assert(es.drop_last().take(i) =~= es.take(i));
        lemma_held_prefix(es.drop_last(), a, i);
    } else {
        assert(es.take(i) =~= es);
        if es.len() > 0 {
            lemma_held_prefix(es.drop_last(), a, es.len() - 1);
            assert(es.drop_last().take(es.len() - 1) =~= es.drop_last());
        }
    }
}

/// Every block after the first links to its predecessor's hash and meets its difficulty.
pub open spec fn chain_ok(blocks: Seq<Block>) -> bool {
    forall|i: int| 1 <= i < blocks.len() ==> (#[trigger] blocks[i]).header.prev_hash@ == blocks[i - 1].hash@
        && meets_difficulty(blocks[i].hash@, blocks[i].header.difficulty as nat)
}

/// The chain: blocks, unspent outputs, pending transactions, difficulty and reward.
pub struct Blockchain {
    pub blocks: Vec<Block>,
    pub utxo_set: KeyMap<String, TxOutput>,
    pub mempool: Vec<Transaction>,
    pub difficulty: u32,
    pub mining_reward: u64,
}

fn output_key(id: &str, i: usize) -> (r: String)
    ensures
        r@ == out_key(id@, i as nat),
{
    let mut k = String::new();
    proof {
        reveal_strlit(":");
    }
    push_str(&mut k, id);
    push_str(&mut k, ":");
    push_decimal(&mut k, i as u64);
    k
}

impl Blockchain {
    /// At least the genesis block.
    pub open spec fn wf(&self) -> bool {
        self.blocks@.len() >= 1
    }

    /// The genesis block: a coinbase of 50 coins to `YRGenesis` (its id as the
    /// Merkle root), after 64 zeros, stamped 2024-01-01, with hash `genesis`.
    fn create_genesis_block() -> (r: Block)
        ensures
            r.height == 0,
            r.hash@ == "genesis"@,
            r.header.prev_hash@ == repeat_char('0', 64),
            r.header.merkle_root@ == r.transactions@[0].id@,
            r.header.timestamp == 1704067200,
            r.header.difficulty == 1,
            r.header.nonce == 0,
            r.miner@ == "YRGenesis"@,
            r.transactions@.len() == 1,
            r.transactions@[0].id@ == coinbase_id("YRGenesis"@, r.transactions@[0].timestamp),
            r.transactions@[0].inputs@.len() == 0,
            r.transactions@[0].outputs@.len() == 1,
            r.transactions@[0].outputs@[0].address@ == "YRGenesis"@,
            r.transactions@[0].outputs@[0].amount == 5_000_000_000,
    {
        let coinbase = Transaction::new_coinbase("YRGenesis".to_string(), 5_000_000_000);
        let header = BlockHeader {
            version: 1,
            prev_hash: repeat('0', 64),
            merkle_root: coinbase.id.clone(),
            timestamp: 1704067200,
            difficulty: 1,
            nonce: 0,
        };
        let mut txs: Vec<Transaction> = Vec::new();
        txs.push(coinbase);
        Block { height: 0, header, hash: "genesis".to_string(), transactions: txs, miner: "YRGenesis".to_string() }
    }

    /// A chain holding the genesis block, its coinbase output unspent,
    /// difficulty 2 and a reward of 50 coins.
    pub fn new() -> (r: Self)
        ensures
            r.wf(),
            r.blocks@.len() == 1,
            r.blocks@[0].height == 0,
            r.blocks@[0].hash@ == "genesis"@,
            r.mempool@.len() == 0,
            r.difficulty == 2,
            r.mining_reward == 5_000_000_000,
            utxo_view(r.utxo_set@) == Map::<Seq<char>, (Seq<char>, u64)>::empty().insert(
                out_key(r.blocks@[0].transactions@[0].id@, 0),
                ("YRGenesis"@, 5_000_000_000u64),
            ),
    {
        let genesis = Self::create_genesis_block();
        let mut utxo_set: KeyMap<String, TxOutput> = KeyMap::new();
        let tx = &genesis.transactions[0];
        let key = output_key(tx.id.as_str(), 0);
        let out = TxOutput { address: tx.outputs[0].address.clone(), amount: tx.outputs[0].amount };
        utxo_set.insert(key, out);
        let ghost k0 = out_key(genesis.transactions@[0].id@, 0);
        assert(utxo_view(utxo_set@) =~= Map::<Seq<char>, (Seq<char>, u64)>::empty().insert(
            k0,
            ("YRGenesis"@, 5_000_000_000u64),
        ));
        let mut blocks: Vec<Block> = Vec::new();
        blocks.push(genesis);
        Blockchain { blocks, utxo_set, mempool: Vec::new(), difficulty: 2, mining_reward: 5_000_000_000 }
    }

    /// The last block.
    pub fn latest_block(&self) -> (r: &Block)
        requires
            self.wf(),
        ensures
            *r == self.blocks@.last(),
    {
        &self.blocks[self.blocks.len() - 1]
    }

    /// The number of blocks after the genesis block.
    pub fn height(&self) -> (r: u64)
        requires
            self.wf(),
        ensures
            r == self.blocks@.len() - 1,
    {
        (self.blocks.len() - 1) as u64
    }

    /// Whether `block` links to the last block (unless it is at height 0),
    /// meets its difficulty and carries its transactions' Merkle root.
    fn validate_block(&self, block: &Block) -> (r: bool)
        requires
            self.wf(),
        ensures
            r == ((block.height > 0 ==> block.header.prev_hash@ == self.blocks@.last().hash@)
                && meets_difficulty(block.hash@, block.header.difficulty as nat)
                && block.header.merkle_root@ == merkle_of_txs(block.transactions@)),
    {
        if block.height > 0 {
            let prev = self.latest_block();
            if !str_eq(block.header.prev_hash.as_str(), prev.hash.as_str()) {
                return false;
            }
        }
        let target = repeat('0', block.header.difficulty as usize);
        if !starts_with(block.hash.as_str(), target.as_str()) {
            return false;
        }
        let merkle = calculate_merkle_root(block.transactions.as_slice());
        str_eq(merkle.as_str(), block.header.merkle_root.as_str())
    }

    /// Spends the inputs and adds the outputs of every transaction of
    /// `block`, appends it and empties the pool.
    fn add_block(&mut self, block: Block)
        ensures
            final(self).blocks@ == old(self).blocks@.push(block),
            final(self).mempool@.len() == 0,
            utxo_view(final(self).utxo_set@) == apply_txs(utxo_view(old(self).utxo_set@), block.transactions@),
            final(self).difficulty == old(self).difficulty,
            final(self).mining_reward == old(self).mining_reward,
    {
        let ghost u0 = utxo_view(self.utxo_set@);
        let mut t: usize = 0;
        while t < block.transactions.len()
            invariant
                self.blocks == old(self).blocks,
                self.difficulty == old(self).difficulty,
                self.mining_reward == old(self).mining_reward,
                t <= block.transactions@.len(),
                utxo_view(self.utxo_set@) == apply_txs(u0, block.transactions@.take(t as int)),
            decreases block.transactions@.len() - t,
        {
            let tx = &block.transactions[t];
            let ghost before = utxo_view(self.utxo_set@);
            let mut i: usize = 0;
            while i < tx.inputs.len()
                invariant
                    self.blocks == old(self).blocks,
                    self.difficulty == old(self).difficulty,
                    self.mining_reward == old(self).mining_reward,
                    i <= tx.inputs@.len(),
                    utxo_view(self.utxo_set@) == spend_inputs(before, tx.inputs@.take(i as int)),
                decreases tx.inputs@.len() - i,
            {
                let key = output_key(tx.inputs[i].tx_id.as_str(), tx.inputs[i].output_index as usize);
                let ghost prev = self.utxo_set@;
                self.utxo_set.remove(&key);
                proof {
                    assert(tx.inputs@.take(i + 1).drop_last() =~= tx.inputs@.take(i as int));
                    assert(utxo_view(self.utxo_set@) =~= utxo_view(prev).remove(key@));
                }
                i = i + 1;
            }
            assert(tx.inputs@.take(i as int) =~= tx.inputs@);
            let ghost spent = utxo_view(self.utxo_set@);
            let mut j: usize = 0;
            while j < tx.outputs.len()
                invariant
                    self.blocks == old(self).blocks,
                    self.difficulty == old(self).difficulty,
                    self.mining_reward == old(self).mining_reward,
                    j <= tx.outputs@.len(),
                    utxo_view(self.utxo_set@) == add_outputs(spent, tx.id@, tx.outputs@.take(j as int)),
                decreases tx.outputs@.len() - j,
            {
                let key = output_key(tx.id.as_str(), j);
                let out = TxOutput { address: tx.outputs[j].address.clone(), amount: tx.outputs[j].amount };
                let ghost prev = self.utxo_set@;
                let ghost v = (out.address@, out.amount);
                self.utxo_set.insert(key, out);
                proof {
                    assert(tx.outputs@.take(j + 1).drop_last() =~= tx.outputs@.take(j as int));
                    assert(utxo_view(self.utxo_set@) =~= utxo_view(prev).insert(key@, v));
                }
                j = j + 1;
            }
            assert(tx.outputs@.take(j as int) =~= tx.outputs@);
            proof {
                assert(block.transactions@.take(t + 1).drop_last() =~= block.transactions@.take(t as int));
            }
            t = t + 1;
        }
        assert(block.transactions@.take(t as int) =~= block.transactions@);
        self.blocks.push(block);
        self.mempool = Vec::new();
    }

    /// Mines a block paying the reward to `miner` and holding the pool's
    /// transactions, and appends it. Refused, with nothing changed, when the
    /// nonce search runs out before the hash meets the difficulty.
    pub fn mine_block(&mut self, miner: String) -> (r: Result<Block, String>)
        requires
            old(self).wf(),
            old(self).blocks@.last().height < u64::MAX,
        ensures
            final(self).wf(),
            r matches Err(m) ==> m@ == "区块验证失败"@ && final(self).blocks@ == old(self).blocks@
                && final(self).mempool@ == old(self).mempool@ && final(self).utxo_set@ == old(self).utxo_set@,
            // a refusal means no nonce at all gives the candidate block a hash
            // meeting the difficulty
            r is Err ==> exists|hd: BlockHeader, txs: Seq<Transaction>|
                #![trigger header_hash(hd), merkle_of_txs(txs)]
                {
                    &&& hd.prev_hash@ == old(self).blocks@.last().hash@
                    &&& hd.difficulty == old(self).difficulty
                    &&& hd.version == 1
                    &&& hd.merkle_root@ == merkle_of_txs(txs)
                    &&& txs.len() == old(self).mempool@.len() + 1
                    &&& txs[0].inputs@.len() == 0
                    &&& txs[0].outputs@.len() == 1
                    &&& txs[0].outputs@[0].address@ == miner@
                    &&& txs[0].outputs@[0].amount == old(self).mining_reward
                    &&& forall|k: int| 0 <= k < old(self).mempool@.len() ==> tx_same(
                        #[trigger] txs[k + 1],
                        old(self).mempool@[k],
                    )
                    &&& forall|n: u64| !meets_difficulty(#[trigger] hash_at(hd, n), old(self).difficulty as nat)
                },
            r matches Ok(b) ==> {
                &&& final(self).blocks@.len() == old(self).blocks@.len() + 1
                &&& final(self).blocks@.drop_last() == old(self).blocks@
                &&& block_same(final(self).blocks@.last(), b)
                &&& b.height == old(self).blocks@.last().height + 1
                &&& b.header.prev_hash@ == old(self).blocks@.last().hash@
                &&& b.header.difficulty == old(self).difficulty
                &&& meets_difficulty(b.hash@, b.header.difficulty as nat)
                &&& b.hash@ == header_hash(b.header)
                &&& b.header.merkle_root@ == merkle_of_txs(b.transactions@)
                &&& b.miner@ == miner@
                &&& b.transactions@.len() == old(self).mempool@.len() + 1
                &&& b.transactions@[0].id@ == coinbase_id(miner@, b.transactions@[0].timestamp)
                &&& b.transactions@[0].inputs@.len() == 0
                &&& b.transactions@[0].outputs@.len() == 1
                &&& b.transactions@[0].outputs@[0].address@ == miner@
                &&& b.transactions@[0].outputs@[0].amount == old(self).mining_reward
                &&& forall|k: int| 0 <= k < old(self).mempool@.len() ==> tx_same(
                    #[trigger] b.transactions@[k + 1],
                    old(self).mempool@[k],
                )
                &&& final(self).mempool@.len() == 0
                &&& utxo_view(final(self).utxo_set@) == apply_txs(utxo_view(old(self).utxo_set@), final(self).blocks@.last().transactions@)
                &&& chain_ok(old(self).blocks@) ==> chain_ok(final(self).blocks@)
            },
    {
        let prev_height = self.latest_block().height;
        let prev_hash = self.latest_block().hash.clone();
        let coinbase = Transaction::new_coinbase(miner.clone(), self.mining_reward);
        let mut transactions: Vec<Transaction> = Vec::new();
        transactions.push(coinbase);
        let mut i: usize = 0;
        while i < self.mempool.len()
            invariant
                i <= self.mempool@.len(),
                transactions@.len() == i + 1,
                transactions@[0].id@ == coinbase_id(miner@, transactions@[0].timestamp),
                transactions@[0].inputs@.len() == 0,
                transactions@[0].outputs@.len() == 1,
                transactions@[0].outputs@[0].address@ == miner@,
                transactions@[0].outputs@[0].amount == self.mining_reward,
                forall|k: int| 0 <= k < i ==> tx_same(#[trigger] transactions@[k + 1], self.mempool@[k]),
            decreases self.mempool@.len() - i,
        {
            transactions.push(self.mempool[i].duplicate());
            i = i + 1;
        }
        let ghost txs = transactions@;
        let mut new_block = Block::new(prev_height + 1, prev_hash, transactions, self.difficulty, miner);
        new_block.mine();
        if self.validate_block(&new_block) {
            let copy = new_block.duplicate();
            let ghost old_blocks = self.blocks@;
            self.add_block(copy);
            proof {
                assert(self.blocks@.drop_last() =~= old_blocks);
                if chain_ok(old_blocks) {
                    assert forall|k: int| 1 <= k < self.blocks@.len() implies (#[trigger] self.blocks@[k]).header.prev_hash@
                        == self.blocks@[k - 1].hash@ && meets_difficulty(self.blocks@[k].hash@, self.blocks@[k].header.difficulty as nat) by {
                        if k < old_blocks.len() {
                            assert(self.blocks@[k] == old_blocks[k]);
                            assert(self.blocks@[k - 1] == old_blocks[k - 1]);
                        }
                    }
                }
            }
            Ok(new_block)
        } else {
            proof {
                assert(!meets_difficulty(new_block.hash@, self.difficulty as nat));
                assert(new_block.header.nonce == u64::MAX);
                let hd = new_block.header;
                assert(BlockHeader { nonce: hd.nonce, ..hd } == hd);
                assert forall|n: u64| !meets_difficulty(#[trigger] hash_at(hd, n), old(self).difficulty as nat) by {
                    if n == u64::MAX {
                        assert(hash_at(hd, n) == header_hash(hd));
                    }
                }
                assert(header_hash(hd) == header_hash(hd));
                assert(hd.merkle_root@ == merkle_of_txs(txs));
            }
            Err("区块验证失败".to_string())
        }
    }

    /// The amounts of the unspent outputs paid to `address`.
    pub fn get_balance(&self, address: &str) -> (r: u64)
        requires
            held_by(self.utxo_set.entries(), address@) <= u64::MAX,
        ensures
            r == held_by(self.utxo_set.entries(), address@),
    {
        let n = self.utxo_set.len();
        let mut total: u64 = 0;
        let mut i: usize = 0;
        while i < n
            invariant
                n == self.utxo_set.entries().len(),
                i <= n,
                total == held_by(self.utxo_set.entries().take(i as int), address@),
                held_by(self.utxo_set.entries(), address@) <= u64::MAX,
            decreases n - i,
        {
            let (_, out) = self.utxo_set.entry_at(i);
            proof {
                assert(self.utxo_set.entries().take(i + 1).drop_last() =~= self.utxo_set.entries().take(i as int));
                lemma_held_prefix(self.utxo_set.entries(), address@, i + 1);
            }
            if str_eq(out.address.as_str(), address) {
                total = total + out.amount;
            }
            i = i + 1;
        }
        assert(self.utxo_set.entries().take(n as int) =~= self.utxo_set.entries());
        total
    }

    /// Whether every block after the first links to its predecessor and meets its difficulty.
    pub fn validate_chain(&self) -> (r: bool)
        ensures
            r == chain_ok(self.blocks@),
    {
        let mut i: usize = 1;
        while i < self.blocks.len()
            invariant
                1 <= i,
                i <= self.blocks@.len() || self.blocks@.len() == 0,
                forall|j: int| 1 <= j < i && j < self.blocks@.len() ==> (#[trigger] self.blocks@[j]).header.prev_hash@
                    == self.blocks@[j - 1].hash@ && meets_difficulty(self.blocks@[j].hash@, self.blocks@[j].header.difficulty as nat),
            decreases self.blocks@.len() - i,
        {
            let current = &self.blocks[i];
            let previous = &self.blocks[i - 1];
            if !str_eq(current.header.prev_hash.as_str(), previous.hash.as_str()) {
                return false;
            }
            let target = repeat('0', current.header.difficulty as usize);
            if !starts_with(current.hash.as_str(), target.as_str()) {
                return false;
            }
            i = i + 1;
        }
        true
    }
}

} // verus!
