//! The chain: blocks linked by hash, the UTXO ledger derived from them, a
//! memory pool, mining and validation.
use vstd::prelude::*;
use crate::chain::types::{
    Block, BlockHeader, Transaction, TxInput, TxOutput, ScriptSig, DIFFICULTY, MINING_REWARD,
    block_valid, tx_valid, tx_is_coinbase, sign_text, funded_sum, output_sum, sum_outputs,
    lemma_funded_prefix, meets_difficulty, block_hash, merkle_root_of, is_zero_id, nonce_hash, with_nonce,
    lemma_output_prefix,
};
use crate::crypto::{double_sha256_spec, public_key_parses, der_signature_parses, ecdsa_verifies};
use crate::keymap::{KeyMap, distinct_keys, entries_map, lemma_entries_map_at, key_at};
use crate::text::{str_eq, push_char, hex_decode, hex_decode_spec};
use crate::wallet::{Wallet, WalletError, parsed_key, wallet_sound};
use crate::chain::types::{now_timestamp, tx_hash, sign_input_items};
use crate::crypto::ecdsa_sign_spec;
use crate::bytes::to_vec;

verus! {

/// Why a chain operation failed.
#[derive(Debug, Clone)]
pub enum BlockchainError {
    InvalidHeight { expected: u64, got: u64 },
    InvalidPreviousHash,
    InvalidBlock,
    InvalidTransaction(String),
    InvalidSignature,
    InvalidAddress,
    InsufficientBalance,
    UtxoNotFound { tx_id: String, vout: u32 },
    DuplicateTransaction,
    WalletError,
}

/// A summary of the chain.
#[derive(Debug, Clone)]
pub struct BlockchainStats {
    pub height: u64,
    pub total_blocks: u64,
    pub total_transactions: u64,
    pub utxo_count: usize,
    pub mempool_size: usize,
    pub difficulty: usize,
    pub best_block_hash: String,
}

/// Blocks, the unspent outputs they leave, the outputs spent so far and the
/// transactions waiting to be mined.
pub struct Blockchain {
    pub chain: Vec<Block>,
    pub utxo_set: KeyMap<(String, u32), TxOutput>,
    pub mempool: Vec<Transaction>,
    pub difficulty: usize,
    pub mining_reward_addr: Option<String>,
    pub spent_outputs: KeyMap<(String, u32), ()>,
}

pub type OutKey = (Seq<char>, u32);

/// The key of the output an input refers to.
pub open spec fn input_key(i: TxInput) -> OutKey {
    (i.tx_id@, i.vout)
}

/// The ledger after the first `n` inputs of `tx` are spent (nothing for a coinbase).
pub open spec fn after_inputs(
    u: Map<OutKey, TxOutput>,
    s: Map<OutKey, ()>,
    tx: Transaction,
    n: nat,
) -> (Map<OutKey, TxOutput>, Map<OutKey, ()>)
    decreases n,
{
    if n == 0 {
        (u, s)
    } else {
        let (u1, s1) = after_inputs(u, s, tx, (n - 1) as nat);
        if tx_is_coinbase(tx) {
            (u1, s1)
        } else {
            let k = input_key(tx.inputs@[n - 1]);
            (u1.remove(k), s1.insert(k, ()))
        }
    }
}

/// The unspent outputs after the first `n` outputs of `tx` are added.
pub open spec fn after_outputs(u: Map<OutKey, TxOutput>, tx: Transaction, n: nat) -> Map<
    OutKey,
    TxOutput,
>
    decreases n,
{
    if n == 0 {
        u
    } else {
        after_outputs(u, tx, (n - 1) as nat).insert((tx.id@, (n - 1) as u32), tx.outputs@[n - 1])
    }
}

/// The ledger after one transaction.
pub open spec fn apply_tx(u: Map<OutKey, TxOutput>, s: Map<OutKey, ()>, tx: Transaction) -> (
    Map<OutKey, TxOutput>,
    Map<OutKey, ()>,
) {
    let (u1, s1) = after_inputs(u, s, tx, tx.inputs@.len());
    (after_outputs(u1, tx, tx.outputs@.len()), s1)
}

/// The ledger after the first `n` transactions.
pub open spec fn apply_txs(
    u: Map<OutKey, TxOutput>,
    s: Map<OutKey, ()>,
    txs: Seq<Transaction>,
    n: nat,
) -> (Map<OutKey, TxOutput>, Map<OutKey, ()>)
    decreases n,
{
    if n == 0 {
        (u, s)
    } else {
        let (u1, s1) = apply_txs(u, s, txs, (n - 1) as nat);
        apply_tx(u1, s1, txs[n - 1])
    }
}

/// The ledger after the first `n` blocks.
pub open spec fn apply_blocks(
    u: Map<OutKey, TxOutput>,
    s: Map<OutKey, ()>,
    blocks: Seq<Block>,
    n: nat,
) -> (Map<OutKey, TxOutput>, Map<OutKey, ()>)
    decreases n,
{
    if n == 0 {
        (u, s)
    } else {
        let (u1, s1) = apply_blocks(u, s, blocks, (n - 1) as nat);
        apply_txs(u1, s1, blocks[n - 1].transactions@, blocks[n - 1].transactions@.len())
    }
}

/// The ledger a chain of blocks leaves, replayed from nothing.
pub open spec fn ledger_of(blocks: Seq<Block>) -> (Map<OutKey, TxOutput>, Map<OutKey, ()>) {
    apply_blocks(Map::empty(), Map::empty(), blocks, blocks.len())
}

/// Two inputs carry the same data.
pub open spec fn input_eqv(a: TxInput, b: TxInput) -> bool {
    a.tx_id@ == b.tx_id@ && a.vout == b.vout && a.script_sig.signature@ == b.script_sig.signature@
        && a.script_sig.pubkey@ == b.script_sig.pubkey@
}

pub open spec fn output_eqv(a: TxOutput, b: TxOutput) -> bool {
    a.value == b.value && a.script_pubkey@ == b.script_pubkey@
}

/// Two transactions carry the same data.
pub open spec fn tx_eqv(a: Transaction, b: Transaction) -> bool {
    &&& a.id@ == b.id@
    &&& a.timestamp == b.timestamp
    &&& a.version == b.version
    &&& a.inputs@.len() == b.inputs@.len()
    &&& forall|i: int| 0 <= i < a.inputs@.len() ==> input_eqv(#[trigger] a.inputs@[i], b.inputs@[i])
    &&& a.outputs@.len() == b.outputs@.len()
    &&& forall|i: int|
        0 <= i < a.outputs@.len() ==> output_eqv(#[trigger] a.outputs@[i], b.outputs@[i])
}

/// Two blocks carry the same data.
pub open spec fn block_eqv(a: Block, b: Block) -> bool {
    &&& a.height == b.height
    &&& a.hash@ == b.hash@
    &&& a.header.version == b.header.version
    &&& a.header.prev_hash@ == b.header.prev_hash@
    &&& a.header.merkle_root@ == b.header.merkle_root@
    &&& a.header.timestamp == b.header.timestamp
    &&& a.header.bits == b.header.bits
    &&& a.header.nonce == b.header.nonce
    &&& a.transactions@.len() == b.transactions@.len()
    &&& forall|i: int|
        0 <= i < a.transactions@.len() ==> tx_eqv(#[trigger] a.transactions@[i], b.transactions@[i])
}

fn dup_input(i: &TxInput) -> (r: TxInput)
    ensures
        input_eqv(r, *i),
{
    TxInput {
        tx_id: i.tx_id.clone(),
        vout: i.vout,
        script_sig: ScriptSig {
            signature: to_vec(i.script_sig.signature.as_slice()),
            pubkey: to_vec(i.script_sig.pubkey.as_slice()),
        },
    }
}

fn dup_output(o: &TxOutput) -> (r: TxOutput)
    ensures
        r == *o,
{
    TxOutput { value: o.value, script_pubkey: o.script_pubkey.clone() }
}

/// A copy of a transaction with the same data.
pub fn dup_tx(t: &Transaction) -> (r: Transaction)
    ensures
        tx_eqv(r, *t),
{
    let mut inputs: Vec<TxInput> = Vec::new();
    let mut i: usize = 0;
    while i < t.inputs.len()
        invariant
            i <= t.inputs@.len(),
            inputs@.len() == i,
            forall|j: int| 0 <= j < i ==> input_eqv(#[trigger] inputs@[j], t.inputs@[j]),
        decreases t.inputs@.len() - i,
    {
        inputs.push(dup_input(&t.inputs[i]));
        i = i + 1;
    }
    let mut outputs: Vec<TxOutput> = Vec::new();
    let mut j: usize = 0;
    while j < t.outputs.len()
        invariant
            j <= t.outputs@.len(),
            outputs@.len() == j,
            forall|k: int| 0 <= k < j ==> output_eqv(#[trigger] outputs@[k], t.outputs@[k]),
        decreases t.outputs@.len() - j,
    {
        outputs.push(dup_output(&t.outputs[j]));
        j = j + 1;
    }
    Transaction {
        id: t.id.clone(),
        timestamp: t.timestamp,
        inputs,
        outputs,
        version: t.version,
    }
}

/// A copy of a block with the same data.
pub fn dup_block(b: &Block) -> (r: Block)
    ensures
        block_eqv(r, *b),
{
    let mut txs: Vec<Transaction> = Vec::new();
    let mut i: usize = 0;
    while i < b.transactions.len()
        invariant
            i <= b.transactions@.len(),
            txs@.len() == i,
            forall|j: int| 0 <= j < i ==> tx_eqv(#[trigger] txs@[j], b.transactions@[j]),
        decreases b.transactions@.len() - i,
    {
        txs.push(dup_tx(&b.transactions[i]));
        i = i + 1;
    }
    Block {
        header: BlockHeader {
            version: b.header.version,
            prev_hash: b.header.prev_hash.clone(),
            merkle_root: b.header.merkle_root.clone(),
            timestamp: b.header.timestamp,
            bits: b.header.bits,
            nonce: b.header.nonce,
        },
        height: b.height,
        transactions: txs,
        hash: b.hash.clone(),
    }
}

/// A chain is well formed when its ledger is the replay of its blocks.
pub open spec fn chain_links(chain: Seq<Block>, d: nat) -> bool {
    &&& chain.len() >= 1
    &&& chain[0].height == 0
    &&& chain[0].header.prev_hash@ == seq!['0']
    &&& forall|i: int|
        1 <= i < chain.len() ==> {
            &&& block_valid(#[trigger] chain[i], d)
            &&& chain[i].header.prev_hash@ == chain[i - 1].hash@
            &&& chain[i].height == chain[i - 1].height + 1
        }
}

/// Applies the transactions of `block` to a ledger: inputs of ordinary
/// transactions leave the unspent set and join the spent set, outputs join
/// the unspent set.
fn apply_block_to(
    utxo: &mut KeyMap<(String, u32), TxOutput>,
    spent: &mut KeyMap<(String, u32), ()>,
    block: &Block,
)
    ensures
        (final(utxo)@, final(spent)@) == apply_txs(
            old(utxo)@,
            old(spent)@,
            block.transactions@,
            block.transactions@.len(),
        ),
{
    let mut t: usize = 0;
    while t < block.transactions.len()
        invariant
            t <= block.transactions@.len(),
            (utxo@, spent@) == apply_txs(old(utxo)@, old(spent)@, block.transactions@, t as nat),
        decreases block.transactions@.len() - t,
    {
        let tx = &block.transactions[t];
        let ghost u0 = utxo@;
        let ghost s0 = spent@;
        let coinbase = tx.is_coinbase();
        let mut i: usize = 0;
        while i < tx.inputs.len()
            invariant
                i <= tx.inputs@.len(),
                coinbase == tx_is_coinbase(*tx),
                (utxo@, spent@) == after_inputs(u0, s0, *tx, i as nat),
            decreases tx.inputs@.len() - i,
        {
            if !coinbase {
                let key = (tx.inputs[i].tx_id.clone(), tx.inputs[i].vout);
                utxo.remove(&key);
                spent.insert(key, ());
            }
            i = i + 1;
        }
        let ghost u1 = utxo@;
        let mut j: usize = 0;
        while j < tx.outputs.len()
            invariant
                j <= tx.outputs@.len(),
                utxo@ == after_outputs(u1, *tx, j as nat),
                spent@ == after_inputs(u0, s0, *tx, tx.inputs@.len()).1,
                u1 == after_inputs(u0, s0, *tx, tx.inputs@.len()).0,
            decreases tx.outputs@.len() - j,
        {
            let o = dup_output(&tx.outputs[j]);
            utxo.insert((tx.id.clone(), j as u32), o);
            j = j + 1;
        }
        t = t + 1;
    }
}

/// Sum of the unspent outputs in `es` locked to `address`.
pub open spec fn balance_sum(
    es: Seq<((String, u32), TxOutput)>,
    spent: Map<OutKey, ()>,
    address: Seq<char>,
) -> int
    decreases es.len(),
{
    if es.len() == 0 {
        0
    } else {
        let e = es.last();
        balance_sum(es.drop_last(), spent, address) + if e.1.script_pubkey@ == address
            && !spent.contains_key(e.0@) {
            e.1.value as int
        } else {
            0
        }
    }
}

proof fn lemma_balance_prefix(
    es: Seq<((String, u32), TxOutput)>,
    spent: Map<OutKey, ()>,
    address: Seq<char>,
    i: int,
)
    requires
        0 <= i <= es.len(),
    ensures
        0 <= balance_sum(es.take(i), spent, address) <= balance_sum(es, spent, address),
    decreases es.len() - i,
{
    lemma_balance_nonneg(es.take(i), spent, address);
    if i < es.len() {
        lemma_balance_prefix(es, spent, address, i + 1);
        assert(es.take(i + 1).drop_last() =~= es.take(i));
    } else {
        assert(es.take(i) =~= es);
    }
}

proof fn lemma_balance_nonneg(es: Seq<((String, u32), TxOutput)>, spent: Map<OutKey, ()>, address: Seq<char>)
    ensures
        balance_sum(es, spent, address) >= 0,
    decreases es.len(),
{
    if es.len() > 0 {
        lemma_balance_nonneg(es.drop_last(), spent, address);
    }
}

/// Number of transactions in the blocks.
pub open spec fn tx_count(blocks: Seq<Block>) -> int
    decreases blocks.len(),
{
    if blocks.len() == 0 {
        0
    } else {
        tx_count(blocks.drop_last()) + blocks.last().transactions@.len()
    }
}

proof fn lemma_tx_count_prefix(blocks: Seq<Block>, i: int)
    requires
        0 <= i <= blocks.len(),
    ensures
        0 <= tx_count(blocks.take(i)) <= tx_count(blocks),
    decreases blocks.len() - i,
{
    lemma_tx_count_nonneg(blocks.take(i));
    if i < blocks.len() {
        lemma_tx_count_prefix(blocks, i + 1);
        assert(blocks.take(i + 1).drop_last() =~= blocks.take(i));
    } else {
        assert(blocks.take(i) =~= blocks);
    }
}

proof fn lemma_tx_count_nonneg(blocks: Seq<Block>)
    ensures
        tx_count(blocks) >= 0,
    decreases blocks.len(),
{
    if blocks.len() > 0 {
        lemma_tx_count_nonneg(blocks.drop_last());
    }
}

/// The verdict on one input of an ordinary transaction whose signed bytes
/// are `data`: a spent output refuses it, an unknown output is an error, a
/// signature is required and checked.
pub open spec fn input_check(
    u: Map<OutKey, TxOutput>,
    s: Map<OutKey, ()>,
    inp: TxInput,
    data: Seq<u8>,
) -> Result<bool, BlockchainError> {
    let k = input_key(inp);
    let sig = inp.script_sig.signature@;
    let pk = inp.script_sig.pubkey@;
    if s.contains_key(k) {
        Ok(false)
    } else if !u.contains_key(k) {
        Err(BlockchainError::UtxoNotFound { tx_id: inp.tx_id, vout: inp.vout })
    } else if sig.len() > 0 && pk.len() > 0 {
        if !public_key_parses(pk) || !der_signature_parses(sig) {
            Err(BlockchainError::InvalidSignature)
        } else {
            Ok(ecdsa_verifies(double_sha256_spec(data), sig, pk))
        }
    } else {
        Ok(false)
    }
}

/// The verdict on the first `n` inputs: `Ok(true)` while they all pass.
pub open spec fn inputs_verdict(
    u: Map<OutKey, TxOutput>,
    s: Map<OutKey, ()>,
    tx: Transaction,
    n: nat,
) -> Result<bool, BlockchainError>
    decreases n,
{
    if n == 0 {
        Ok(true)
    } else {
        match inputs_verdict(u, s, tx, (n - 1) as nat) {
            Ok(true) => input_check(
                u,
                s,
                tx.inputs@[n - 1],
                vstd::utf8::encode_utf8(sign_text(tx)),
            ),
            r => r,
        }
    }
}

/// The verdict on a transaction against a ledger: its shape and id, then
/// for a coinbase the reward, otherwise each input and the balance of
/// inputs and outputs.
pub open spec fn tx_verdict(u: Map<OutKey, TxOutput>, s: Map<OutKey, ()>, tx: Transaction) -> Result<
    bool,
    BlockchainError,
> {
    if !tx_valid(tx) {
        Ok(false)
    } else if tx_is_coinbase(tx) {
        Ok(tx.outputs@.len() > 0 && tx.outputs@[0].value == MINING_REWARD)
    } else {
        match inputs_verdict(u, s, tx, tx.inputs@.len()) {
            Ok(true) => Ok(output_sum(tx.outputs@) <= funded_sum(tx.inputs@, u)),
            r => r,
        }
    }
}

/// Checking `tx` adds up its inputs and outputs without overflow.
#[verifier::opaque]
pub open spec fn tx_sums_fit(u: Map<OutKey, TxOutput>, s: Map<OutKey, ()>, tx: Transaction) -> bool {
    tx_valid(tx) && !tx_is_coinbase(tx) ==> {
        &&& forall|n: int|
            0 < n <= tx.inputs@.len() && #[trigger] inputs_verdict(u, s, tx, (n - 1) as nat) == Ok::<
                bool,
                BlockchainError,
            >(true) && !s.contains_key(input_key(tx.inputs@[n - 1])) && u.contains_key(
                input_key(tx.inputs@[n - 1]),
            ) ==> funded_sum(tx.inputs@.take(n), u) <= u64::MAX
        &&& inputs_verdict(u, s, tx, tx.inputs@.len()) == Ok::<bool, BlockchainError>(true)
            ==> output_sum(tx.outputs@) <= u64::MAX
    }
}

/// The verdict on the first `n` transactions of a block.
pub open spec fn txs_verdict(
    u: Map<OutKey, TxOutput>,
    s: Map<OutKey, ()>,
    txs: Seq<Transaction>,
    n: nat,
) -> Result<(), BlockchainError>
    decreases n,
{
    if n == 0 {
        Ok(())
    } else {
        match txs_verdict(u, s, txs, (n - 1) as nat) {
            Ok(()) => match tx_verdict(u, s, txs[n - 1]) {
                Ok(true) => Ok(()),
                Ok(false) => Err(BlockchainError::InvalidTransaction(txs[n - 1].id)),
                Err(e) => Err(e),
            },
            e => e,
        }
    }
}

/// Every transaction that checking a block reaches can be checked without overflow.
#[verifier::opaque]
pub open spec fn txs_sums_fit(u: Map<OutKey, TxOutput>, s: Map<OutKey, ()>, txs: Seq<Transaction>) -> bool {
    forall|i: int|
        0 <= i < txs.len() && #[trigger] txs_verdict(u, s, txs, i as nat) == Ok::<(), BlockchainError>(
            (),
        ) ==> tx_sums_fit(u, s, txs[i])
}

/// Once an input fails, the verdict on longer prefixes stays the same.
proof fn lemma_inputs_stuck(u: Map<OutKey, TxOutput>, s: Map<OutKey, ()>, tx: Transaction, n: nat, m: nat)
    requires
        n <= m,
        inputs_verdict(u, s, tx, n) != Ok::<bool, BlockchainError>(true),
    ensures
        inputs_verdict(u, s, tx, m) == inputs_verdict(u, s, tx, n),
    decreases m - n,
{
    if n < m {
        lemma_inputs_stuck(u, s, tx, n, (m - 1) as nat);
    }
}

/// Once a transaction fails, the verdict on longer prefixes stays the same.
proof fn lemma_txs_stuck(u: Map<OutKey, TxOutput>, s: Map<OutKey, ()>, txs: Seq<Transaction>, n: nat, m: nat)
    requires
        n <= m,
        txs_verdict(u, s, txs, n) != Ok::<(), BlockchainError>(()),
    ensures
        txs_verdict(u, s, txs, m) == txs_verdict(u, s, txs, n),
    decreases m - n,
{
    if n < m {
        lemma_txs_stuck(u, s, txs, n, (m - 1) as nat);
    }
}

/// Choosing transactions to mine from the first `n` of `txs`: up to 100
/// that pass their check, in order; the others stay behind, in order.
pub open spec fn pick(u: Map<OutKey, TxOutput>, s: Map<OutKey, ()>, txs: Seq<Transaction>, n: nat) -> (
    Seq<Transaction>,
    Seq<Transaction>,
)
    decreases n,
{
    if n == 0 {
        (Seq::empty(), Seq::empty())
    } else {
        let (v, rem) = pick(u, s, txs, (n - 1) as nat);
        let t = txs[n - 1];
        if v.len() >= 100 {
            (v, rem.push(t))
        } else if tx_verdict(u, s, t) == Ok::<bool, BlockchainError>(true) {
            (v.push(t), rem)
        } else {
            (v, rem.push(t))
        }
    }
}

/// Every pool transaction that the choice examines can be checked without overflow.
pub open spec fn pool_sums_fit(u: Map<OutKey, TxOutput>, s: Map<OutKey, ()>, txs: Seq<Transaction>) -> bool {
    forall|i: int|
        0 <= i < txs.len() && (#[trigger] pick(u, s, txs, i as nat)).0.len() < 100 ==> tx_sums_fit(
            u,
            s,
            txs[i],
        )
}

proof fn lemma_pick_props(u: Map<OutKey, TxOutput>, s: Map<OutKey, ()>, txs: Seq<Transaction>, n: nat)
    requires
        n <= txs.len(),
        pool_sums_fit(u, s, txs),
    ensures
        forall|k: int|
            0 <= k < pick(u, s, txs, n).0.len() ==> tx_verdict(u, s, #[trigger] pick(u, s, txs, n).0[k])
                == Ok::<bool, BlockchainError>(true) && tx_sums_fit(u, s, pick(u, s, txs, n).0[k]),
    decreases n,
{
    if n > 0 {
        lemma_pick_props(u, s, txs, (n - 1) as nat);
        let (v, rem) = pick(u, s, txs, (n - 1) as nat);
        if v.len() < 100 {
            assert(pick(u, s, txs, ((n - 1) as int) as nat) == pick(u, s, txs, (n - 1) as nat));
        }
    }
}

proof fn lemma_txs_all_ok(u: Map<OutKey, TxOutput>, s: Map<OutKey, ()>, txs: Seq<Transaction>, n: nat)
    requires
        n <= txs.len(),
        forall|i: int| 0 <= i < n ==> tx_verdict(u, s, #[trigger] txs[i]) == Ok::<bool, BlockchainError>(true),
    ensures
        txs_verdict(u, s, txs, n) == Ok::<(), BlockchainError>(()),
    decreases n,
{
    if n > 0 {
        lemma_txs_all_ok(u, s, txs, (n - 1) as nat);
    }
}

/// A coinbase paying the reward followed by transactions that pass their
/// check passes as a whole.
proof fn lemma_block_of_picked(
    u: Map<OutKey, TxOutput>,
    sp: Map<OutKey, ()>,
    coinbase: Transaction,
    to: Seq<char>,
    nonce: u64,
    picked: Seq<Transaction>,
    txs: Seq<Transaction>,
)
    requires
        txs == seq![coinbase] + picked,
        Transaction::is_coinbase_of(coinbase, to, MINING_REWARD, nonce),
        forall|k: int|
            0 <= k < picked.len() ==> tx_verdict(u, sp, #[trigger] picked[k]) == Ok::<
                bool,
                BlockchainError,
            >(true) && tx_sums_fit(u, sp, picked[k]),
    ensures
        txs_verdict(u, sp, txs, txs.len()) == Ok::<(), BlockchainError>(()),
        txs_sums_fit(u, sp, txs),
        forall|k: int| 0 <= k < txs.len() ==> tx_valid(#[trigger] txs[k]),
{
    assert(tx_is_coinbase(coinbase));
    assert forall|k: int| 0 <= k < txs.len() implies tx_verdict(u, sp, #[trigger] txs[k]) == Ok::<
        bool,
        BlockchainError,
    >(true) by {
        if k > 0 {
            assert(txs[k] == picked[k - 1]);
        }
    }
    lemma_txs_all_ok(u, sp, txs, txs.len());
    reveal(txs_sums_fit);
    assert forall|k: int|
        0 <= k < txs.len() && #[trigger] txs_verdict(u, sp, txs, k as nat) == Ok::<(), BlockchainError>(
            (),
        ) implies tx_sums_fit(u, sp, txs[k]) by {
        if k == 0 {
            reveal(tx_sums_fit);
        } else {
            assert(txs[k] == picked[k - 1]);
        }
    }
    assert forall|k: int| 0 <= k < txs.len() implies tx_valid(#[trigger] txs[k]) by {
        if k > 0 {
            assert(txs[k] == picked[k - 1]);
        }
    }
}

proof fn lemma_pool_fit_at(u: Map<OutKey, TxOutput>, s: Map<OutKey, ()>, txs: Seq<Transaction>, i: int)
    requires
        pool_sums_fit(u, s, txs),
        0 <= i < txs.len(),
        pick(u, s, txs, i as nat).0.len() < 100,
    ensures
        tx_sums_fit(u, s, txs[i]),
{
}

proof fn lemma_funded_take_step(inputs: Seq<TxInput>, u: Map<OutKey, TxOutput>, n: int)
    requires
        0 <= n < inputs.len(),
    ensures
        funded_sum(inputs.take(n + 1), u) == funded_sum(inputs.take(n), u) + if u.contains_key(
            input_key(inputs[n]),
        ) {
            u[input_key(inputs[n])].value as int
        } else {
            0
        },
{
    assert(inputs.take(n + 1).drop_last() =~= inputs.take(n));
}

proof fn lemma_apply_blocks_prefix(
    u: Map<OutKey, TxOutput>,
    s: Map<OutKey, ()>,
    a: Seq<Block>,
    b: Seq<Block>,
    n: nat,
)
    requires
        n <= a.len(),
        n <= b.len(),
        forall|i: int| 0 <= i < n ==> a[i] == b[i],
    ensures
        apply_blocks(u, s, a, n) == apply_blocks(u, s, b, n),
    decreases n,
{
    if n > 0 {
        lemma_apply_blocks_prefix(u, s, a, b, (n - 1) as nat);
    }
}

/// Appending a block to a chain applies its transactions to the chain's ledger.
pub proof fn lemma_ledger_push(chain: Seq<Block>, b: Block)
    ensures
        ledger_of(chain.push(b)) == apply_txs(
            ledger_of(chain).0,
            ledger_of(chain).1,
            b.transactions@,
            b.transactions@.len(),
        ),
{
    lemma_apply_blocks_prefix(Map::empty(), Map::empty(), chain.push(b), chain, chain.len());
}

/// The unspent outputs in `es` locked to `address`, in order.
pub open spec fn spendable_of(
    es: Seq<((String, u32), TxOutput)>,
    spent: Map<OutKey, ()>,
    address: Seq<char>,
) -> Seq<((String, u32), TxOutput)>
    decreases es.len(),
{
    if es.len() == 0 {
        es
    } else {
        let e = es.last();
        let rest = spendable_of(es.drop_last(), spent, address);
        if e.1.script_pubkey@ == address && !spent.contains_key(e.0@) {
            rest.push(e)
        } else {
            rest
        }
    }
}

/// Sum of the output values of a list of keyed outputs.
pub open spec fn keyed_sum(m: Seq<((String, u32), TxOutput)>) -> int
    decreases m.len(),
{
    if m.len() == 0 {
        0
    } else {
        keyed_sum(m.drop_last()) + m.last().1.value
    }
}

proof fn lemma_spendable_member(
    es: Seq<((String, u32), TxOutput)>,
    spent: Map<OutKey, ()>,
    address: Seq<char>,
    j: int,
)
    requires
        0 <= j < spendable_of(es, spent, address).len(),
    ensures
        exists|i: int| 0 <= i < es.len() && #[trigger] es[i] == spendable_of(es, spent, address)[j],
        !spent.contains_key(spendable_of(es, spent, address)[j].0@),
    decreases es.len(),
{
    if es.len() > 0 {
        let rest = spendable_of(es.drop_last(), spent, address);
        if j < rest.len() {
            lemma_spendable_member(es.drop_last(), spent, address, j);
            let i = choose|i: int| 0 <= i < es.drop_last().len() && #[trigger] es.drop_last()[i] == rest[j];
            assert(es[i] == rest[j]);
        } else {
            assert(es[es.len() - 1] == es.last());
        }
    }
}

proof fn lemma_funded_keyed(inputs: Seq<TxInput>, c: Seq<((String, u32), TxOutput)>, u: Map<OutKey, TxOutput>)
    requires
        inputs.len() == c.len(),
        forall|j: int|
            0 <= j < c.len() ==> input_key(#[trigger] inputs[j]) == c[j].0@ && u.contains_key(c[j].0@)
                && u[c[j].0@] == c[j].1,
    ensures
        funded_sum(inputs, u) == keyed_sum(c),
    decreases c.len(),
{
    if c.len() > 0 {
        let k = c.len() - 1;
        assert(input_key(inputs[k]) == c[k].0@);
        lemma_funded_keyed(inputs.drop_last(), c.drop_last(), u);
    }
}

proof fn lemma_inputs_pass(u: Map<OutKey, TxOutput>, s: Map<OutKey, ()>, tx: Transaction, n: nat)
    requires
        n <= tx.inputs@.len(),
        forall|j: int|
            0 <= j < tx.inputs@.len() ==> #[trigger] input_check(
                u,
                s,
                tx.inputs@[j],
                vstd::utf8::encode_utf8(sign_text(tx)),
            ) == Ok::<bool, BlockchainError>(true),
    ensures
        inputs_verdict(u, s, tx, n) == Ok::<bool, BlockchainError>(true),
    decreases n,
{
    if n > 0 {
        lemma_inputs_pass(u, s, tx, (n - 1) as nat);
        assert(input_check(u, s, tx.inputs@[n - 1], vstd::utf8::encode_utf8(sign_text(tx))) == Ok::<
            bool,
            BlockchainError,
        >(true));
    }
}

/// The outputs chosen to pay `amount` from `address` add up to no more
/// than `u64::MAX`.
pub open spec fn spend_fits(
    es: Seq<((String, u32), TxOutput)>,
    spent: Map<OutKey, ()>,
    address: Seq<char>,
    amount: u64,
) -> bool {
    let m = spendable_of(es, spent, address);
    let c = cover_len(m, amount as int, 0);
    keyed_sum(m.take(if c <= m.len() { c as int } else { m.len() as int })) <= u64::MAX
}

/// The values of the outputs that `tx`'s inputs refer to add up to no more
/// than `u64::MAX`, and so do its own outputs.
pub open spec fn sums_small(u: Map<OutKey, TxOutput>, tx: Transaction) -> bool {
    funded_sum(tx.inputs@, u) <= u64::MAX && output_sum(tx.outputs@) <= u64::MAX
}

proof fn lemma_small_sums_fit(u: Map<OutKey, TxOutput>, s: Map<OutKey, ()>, tx: Transaction)
    requires
        sums_small(u, tx),
    ensures
        tx_sums_fit(u, s, tx),
{
    reveal(tx_sums_fit);
    assert forall|n: int| 0 < n <= tx.inputs@.len() implies funded_sum(tx.inputs@.take(n), u)
        <= u64::MAX by {
        lemma_funded_prefix(tx.inputs@, u, n);
    }
}

proof fn lemma_spendable_sum(es: Seq<((String, u32), TxOutput)>, spent: Map<OutKey, ()>, address: Seq<char>)
    ensures
        keyed_sum(spendable_of(es, spent, address)) == balance_sum(es, spent, address),
    decreases es.len(),
{
    if es.len() > 0 {
        lemma_spendable_sum(es.drop_last(), spent, address);
        let e = es.last();
        let rest = spendable_of(es.drop_last(), spent, address);
        if e.1.script_pubkey@ == address && !spent.contains_key(e.0@) {
            assert(rest.push(e).drop_last() =~= rest);
        }
    }
}

proof fn lemma_balance_bounds_spend(
    es: Seq<((String, u32), TxOutput)>,
    spent: Map<OutKey, ()>,
    address: Seq<char>,
    amount: u64,
)
    requires
        balance_sum(es, spent, address) <= u64::MAX,
    ensures
        spend_fits(es, spent, address, amount),
{
    let m = spendable_of(es, spent, address);
    let c = cover_len(m, amount as int, 0);
    let t = if c <= m.len() { c as int } else { m.len() as int };
    lemma_spendable_sum(es, spent, address);
    lemma_cover_ge(m, amount as int, 0);
    lemma_keyed_prefix_mono(m, t, m.len() as int);
    assert(m.take(m.len() as int) =~= m);
}

/// The length of the shortest non-empty prefix of `m` from `k` on whose sum
/// reaches `min`, or `m.len() + 1` when there is none.
pub open spec fn cover_len(m: Seq<((String, u32), TxOutput)>, min: int, k: nat) -> nat
    decreases m.len() - k,
{
    if k >= m.len() {
        (m.len() + 1) as nat
    } else if keyed_sum(m.take((k + 1) as int)) >= min {
        (k + 1) as nat
    } else {
        cover_len(m, min, k + 1)
    }
}

/// The outputs chosen to pay `min`: the shortest prefix of the spendable
/// outputs that covers it, or nothing when they do not suffice.
pub open spec fn chosen_outputs(
    es: Seq<((String, u32), TxOutput)>,
    spent: Map<OutKey, ()>,
    address: Seq<char>,
    min: u64,
) -> Seq<((String, u32), TxOutput)> {
    let m = spendable_of(es, spent, address);
    let c = cover_len(m, min as int, 0);
    if c <= m.len() {
        m.take(c as int)
    } else if min == 0 {
        m
    } else {
        Seq::empty()
    }
}

proof fn lemma_keyed_sum_step(m: Seq<((String, u32), TxOutput)>, k: int)
    requires
        0 <= k < m.len(),
    ensures
        keyed_sum(m.take(k + 1)) == keyed_sum(m.take(k)) + m[k].1.value,
{
    assert(m.take(k + 1).drop_last() =~= m.take(k));
}

proof fn lemma_keyed_prefix_mono(m: Seq<((String, u32), TxOutput)>, a: int, b: int)
    requires
        0 <= a <= b <= m.len(),
    ensures
        keyed_sum(m.take(a)) <= keyed_sum(m.take(b)),
    decreases b - a,
{
    if a < b {
        lemma_keyed_prefix_mono(m, a, b - 1);
        lemma_keyed_sum_step(m, b - 1);
    }
}

proof fn lemma_cover_ge(m: Seq<((String, u32), TxOutput)>, min: int, k: nat)
    requires
        k <= m.len(),
    ensures
        cover_len(m, min, k) >= k + 1,
    decreases m.len() - k,
{
    if k < m.len() && keyed_sum(m.take((k + 1) as int)) < min {
        lemma_cover_ge(m, min, k + 1);
    }
}

proof fn lemma_cover_sum(m: Seq<((String, u32), TxOutput)>, min: int, k: nat)
    requires
        cover_len(m, min, k) <= m.len(),
    ensures
        keyed_sum(m.take(cover_len(m, min, k) as int)) >= min,
    decreases m.len() - k,
{
    if k < m.len() && keyed_sum(m.take((k + 1) as int)) < min {
        lemma_cover_sum(m, min, k + 1);
    }
}

proof fn lemma_keyed_sum_nonneg(m: Seq<((String, u32), TxOutput)>)
    ensures
        keyed_sum(m) >= 0,
    decreases m.len(),
{
    if m.len() > 0 {
        lemma_keyed_sum_nonneg(m.drop_last());
    }
}

/// The spendable outputs of a prefix are a prefix of the spendable outputs.
proof fn lemma_spendable_prefix(es: Seq<((String, u32), TxOutput)>, spent: Map<OutKey, ()>, address: Seq<char>, i: int)
    requires
        0 <= i <= es.len(),
    ensures
        spendable_of(es.take(i), spent, address).len() <= spendable_of(es, spent, address).len(),
        spendable_of(es.take(i), spent, address) == spendable_of(es, spent, address).take(
            spendable_of(es.take(i), spent, address).len() as int,
        ),
    decreases es.len() - i,
{
    if i == es.len() {
        assert(es.take(i) =~= es);
        assert(spendable_of(es, spent, address).take(spendable_of(es, spent, address).len() as int)
            =~= spendable_of(es, spent, address));
    } else {
        lemma_spendable_prefix(es, spent, address, i + 1);
        assert(es.take(i + 1).drop_last() =~= es.take(i));
        let a = spendable_of(es.take(i), spent, address);
        let b = spendable_of(es.take(i + 1), spent, address);
        let full = spendable_of(es, spent, address);
        assert(b == a || b == a.push(es[i]));
        assert(a =~= full.take(a.len() as int));
    }
}

/// Skipping prefixes that do not cover `min` leaves the cover length unchanged.
proof fn lemma_cover_skip(m: Seq<((String, u32), TxOutput)>, min: int, k: nat)
    requires
        k <= m.len(),
        forall|j: int| 1 <= j <= k ==> #[trigger] keyed_sum(m.take(j)) < min,
    ensures
        cover_len(m, min, 0) == cover_len(m, min, k),
    decreases k,
{
    if k > 0 {
        lemma_cover_skip(m, min, (k - 1) as nat);
        assert(keyed_sum(m.take(k as int)) < min);
    }
}

impl Blockchain {
    /// The outputs spent so far.
    pub open spec fn spent(&self) -> Map<OutKey, ()> {
        self.spent_outputs@
    }

    /// The ledger is the replay of the blocks.
    pub open spec fn wf(&self) -> bool {
        &&& self.chain@.len() >= 1
        &&& (self.utxo_set@, self.spent()) == ledger_of(self.chain@)
    }

    /// The last block; the chain is never empty.
    pub fn get_last_block(&self) -> (r: &Block)
        requires
            self.chain@.len() >= 1,
        ensures
            *r == self.chain@.last(),
    {
        &self.chain[self.chain.len() - 1]
    }

    /// Height of the last block: the number of blocks minus one.
    pub fn get_height(&self) -> (r: u64)
        requires
            self.chain@.len() >= 1,
        ensures
            r == (self.chain@.len() - 1) as u64,
    {
        self.chain.len() as u64 - 1
    }

    pub fn set_mining_reward_addr(&mut self, addr: String)
        ensures
            final(self).mining_reward_addr matches Some(a) && a@ == addr@,
            final(self).chain == old(self).chain,
            final(self).utxo_set == old(self).utxo_set,
            final(self).mempool == old(self).mempool,
            final(self).difficulty == old(self).difficulty,
            final(self).spent() == old(self).spent(),
    {
        self.mining_reward_addr = Some(addr);
    }

    /// Recomputes the ledger by replaying every block from the genesis.
    pub fn rebuild_utxo_set(&mut self)
        ensures
            (final(self).utxo_set@, final(self).spent()) == ledger_of(old(self).chain@),
            final(self).chain == old(self).chain,
            final(self).mempool == old(self).mempool,
            final(self).difficulty == old(self).difficulty,
            final(self).mining_reward_addr == old(self).mining_reward_addr,
    {
        self.utxo_set = KeyMap::new();
        self.spent_outputs = KeyMap::new();
        let mut i: usize = 0;
        while i < self.chain.len()
            invariant
                i <= self.chain@.len(),
                self.chain == old(self).chain,
                self.mempool == old(self).mempool,
                self.difficulty == old(self).difficulty,
                self.mining_reward_addr == old(self).mining_reward_addr,
                (self.utxo_set@, self.spent_outputs@) == apply_blocks(
                    Map::empty(),
                    Map::empty(),
                    self.chain@,
                    i as nat,
                ),
            decreases self.chain@.len() - i,
        {
            apply_block_to(&mut self.utxo_set, &mut self.spent_outputs, &self.chain[i]);
            i = i + 1;
        }
    }

    /// Sum of the unspent outputs locked to `address`.
    pub fn get_balance(&self, address: &str) -> (r: u64)
        requires
            balance_sum(self.utxo_set.entries(), self.spent(), address@) <= u64::MAX,
        ensures
            r == balance_sum(self.utxo_set.entries(), self.spent(), address@),
    {
        let n = self.utxo_set.len();
        let ghost es = self.utxo_set.entries();
        let mut total: u64 = 0;
        let mut i: usize = 0;
        while i < n
            invariant
                n == es.len(),
                es == self.utxo_set.entries(),
                i <= n,
                total == balance_sum(es.take(i as int), self.spent_outputs@, address@),
                balance_sum(es, self.spent_outputs@, address@) <= u64::MAX,
            decreases n - i,
        {
            proof {
                assert(es.take(i + 1).drop_last() =~= es.take(i as int));
                lemma_balance_prefix(es, self.spent_outputs@, address@, i + 1);
            }
            let (k, o) = self.utxo_set.entry_at(i);
            if str_eq(o.script_pubkey.as_str(), address) && !self.spent_outputs.contains_key(k) {
                total = total + o.value;
            }
            i = i + 1;
        }
        assert(es.take(n as int) =~= es);
        total
    }

    /// The balance of `address`, or `None` when it does not fit in a `u64`.
    pub fn try_get_balance(&self, address: &str) -> (r: Option<u64>)
        ensures
            match r {
                Some(v) => v == balance_sum(self.utxo_set.entries(), self.spent(), address@),
                None => balance_sum(self.utxo_set.entries(), self.spent(), address@) > u64::MAX,
            },
            r is Some ==> forall|amount: u64|
                #[trigger] spend_fits(self.utxo_set.entries(), self.spent(), address@, amount),
    {
        let n = self.utxo_set.len();
        let ghost es = self.utxo_set.entries();
        let mut total: u64 = 0;
        let mut i: usize = 0;
        while i < n
            invariant
                n == es.len(),
                es == self.utxo_set.entries(),
                i <= n,
                total == balance_sum(es.take(i as int), self.spent_outputs@, address@),
            decreases n - i,
        {
            proof {
                assert(es.take(i + 1).drop_last() =~= es.take(i as int));
            }
            let (k, o) = self.utxo_set.entry_at(i);
            if str_eq(o.script_pubkey.as_str(), address) && !self.spent_outputs.contains_key(k) {
                match total.checked_add(o.value) {
                    Some(t) => {
                        total = t;
                    },
                    None => {
                        proof {
                            lemma_balance_prefix(es, self.spent_outputs@, address@, i + 1);
                        }
                        return None;
                    },
                }
            }
            i = i + 1;
        }
        assert(es.take(n as int) =~= es);
        proof {
            assert forall|amount: u64|
                #[trigger] spend_fits(self.utxo_set.entries(), self.spent(), address@, amount) by {
                lemma_balance_bounds_spend(es, self.spent_outputs@, address@, amount);
            }
        }
        Some(total)
    }

    /// Whether `tx`'s sums are small (see `sums_small`); a transaction whose
    /// sums are small is checked and pooled without overflow.
    pub fn tx_sums_small(&self, tx: &Transaction) -> (r: bool)
        ensures
            r == sums_small(self.utxo_set@, *tx),
            r ==> tx_sums_fit(self.utxo_set@, self.spent(), *tx),
    {
        let ghost u = self.utxo_set@;
        let mut total: u64 = 0;
        let mut i: usize = 0;
        while i < tx.inputs.len()
            invariant
                i <= tx.inputs@.len(),
                u == self.utxo_set@,
                total == funded_sum(tx.inputs@.take(i as int), u),
            decreases tx.inputs@.len() - i,
        {
            let inp = &tx.inputs[i];
            let key = (inp.tx_id.clone(), inp.vout);
            proof {
                lemma_funded_take_step(tx.inputs@, u, i as int);
            }
            match self.utxo_set.get(&key) {
                Some(o) => match total.checked_add(o.value) {
                    Some(t) => {
                        total = t;
                    },
                    None => {
                        proof {
                            lemma_funded_prefix(tx.inputs@, u, i + 1);
                        }
                        return false;
                    },
                },
                None => {},
            }
            i = i + 1;
        }
        assert(tx.inputs@.take(tx.inputs@.len() as int) =~= tx.inputs@);
        let mut out: u64 = 0;
        let mut j: usize = 0;
        while j < tx.outputs.len()
            invariant
                j <= tx.outputs@.len(),
                out == output_sum(tx.outputs@.take(j as int)),
            decreases tx.outputs@.len() - j,
        {
            proof {
                assert(tx.outputs@.take(j + 1).drop_last() =~= tx.outputs@.take(j as int));
            }
            match out.checked_add(tx.outputs[j].value) {
                Some(t) => {
                    out = t;
                },
                None => {
                    proof {
                        lemma_output_prefix(tx.outputs@, j + 1);
                    }
                    return false;
                },
            }
            j = j + 1;
        }
        assert(tx.outputs@.take(tx.outputs@.len() as int) =~= tx.outputs@);
        proof {
            lemma_small_sums_fit(u, self.spent_outputs@, *tx);
        }
        true
    }

    /// Whether every pooled transaction's sums are small; when they are, the
    /// pool can be mined without overflow.
    pub fn pool_sums_small(&self) -> (r: bool)
        ensures
            r == forall|i: int| 0 <= i < self.mempool@.len() ==> #[trigger] sums_small(
                self.utxo_set@,
                self.mempool@[i],
            ),
            r ==> pool_sums_fit(self.utxo_set@, self.spent(), self.mempool@),
    {
        let mut i: usize = 0;
        while i < self.mempool.len()
            invariant
                i <= self.mempool@.len(),
                forall|k: int| 0 <= k < i ==> #[trigger] sums_small(self.utxo_set@, self.mempool@[k]),
            decreases self.mempool@.len() - i,
        {
            if !self.tx_sums_small(&self.mempool[i]) {
                return false;
            }
            i = i + 1;
        }
        proof {
            assert forall|k: int|
                0 <= k < self.mempool@.len() && (#[trigger] pick(
                    self.utxo_set@,
                    self.spent(),
                    self.mempool@,
                    k as nat,
                )).0.len() < 100 implies tx_sums_fit(self.utxo_set@, self.spent(), self.mempool@[k]) by {
                assert(sums_small(self.utxo_set@, self.mempool@[k]));
                lemma_small_sums_fit(self.utxo_set@, self.spent(), self.mempool@[k]);
            }
        }
        true
    }

    /// Whether the chain starts with a genesis block at height 0 after `"0"`
    /// and every later block is valid, links to its predecessor's hash and
    /// is one higher.
    pub fn is_valid(&self) -> (r: bool)
        ensures
            r == chain_links(self.chain@, self.difficulty as nat),
    {
        if self.chain.len() == 0 {
            return false;
        }
        let genesis = &self.chain[0];
        let p = &genesis.header.prev_hash;
        let zero_prev = p.as_str().unicode_len() == 1 && p.as_str().get_char(0) == '0';
        assert(zero_prev == (p@ == seq!['0'])) by {
            if p@.len() == 1 && p@[0] == '0' {
                assert(p@ =~= seq!['0']);
            }
        }
        if genesis.height != 0 || !zero_prev {
            return false;
        }
        let mut i: usize = 1;
        while i < self.chain.len()
            invariant
                1 <= i <= self.chain@.len(),
                forall|j: int|
                    1 <= j < i ==> {
                        &&& block_valid(#[trigger] self.chain@[j], self.difficulty as nat)
                        &&& self.chain@[j].header.prev_hash@ == self.chain@[j - 1].hash@
                        &&& self.chain@[j].height == self.chain@[j - 1].height + 1
                    },
            decreases self.chain@.len() - i,
        {
            let current = &self.chain[i];
            let previous = &self.chain[i - 1];
            if !current.is_valid(self.difficulty) {
                return false;
            }
            if !str_eq(current.header.prev_hash.as_str(), previous.hash.as_str()) {
                return false;
            }
            if previous.height == u64::MAX || current.height != previous.height + 1 {
                return false;
            }
            i = i + 1;
        }
        true
    }

    /// The first block whose hash is `hash`.
    pub fn get_block_by_hash(&self, hash: &str) -> (r: Option<&Block>)
        ensures
            match r {
                Some(b) => exists|i: int|
                    0 <= i < self.chain@.len() && *b == #[trigger] self.chain@[i] && b.hash@ == hash@
                        && forall|j: int| 0 <= j < i ==> (#[trigger] self.chain@[j]).hash@ != hash@,
                None => forall|j: int|
                    0 <= j < self.chain@.len() ==> (#[trigger] self.chain@[j]).hash@ != hash@,
            },
    {
        let mut i: usize = 0;
        while i < self.chain.len()
            invariant
                i <= self.chain@.len(),
                forall|j: int| 0 <= j < i ==> (#[trigger] self.chain@[j]).hash@ != hash@,
            decreases self.chain@.len() - i,
        {
            if str_eq(self.chain[i].hash.as_str(), hash) {
                return Some(&self.chain[i]);
            }
            i = i + 1;
        }
        None
    }

    /// The block at position `height`.
    pub fn get_block_by_height(&self, height: u64) -> (r: Option<&Block>)
        ensures
            height < self.chain@.len() ==> r == Some(&self.chain@[height as int]),
            height >= self.chain@.len() ==> r is None,
    {
        if height < self.chain.len() as u64 {
            Some(&self.chain[height as usize])
        } else {
            None
        }
    }

    /// The first transaction with id `tx_id`, searching blocks in order.
    pub fn get_transaction(&self, tx_id: &str) -> (r: Option<&Transaction>)
        ensures
            match r {
                Some(t) => t.id@ == tx_id@ && exists|i: int, j: int|
                    0 <= i < self.chain@.len() && 0 <= j < self.chain@[i].transactions@.len() && *t
                        == self.chain@[i].transactions@[j],
                None => forall|i: int, j: int|
                    0 <= i < self.chain@.len() && 0 <= j < self.chain@[i].transactions@.len()
                        ==> (#[trigger] self.chain@[i].transactions@[j]).id@ != tx_id@,
            },
    {
        let mut i: usize = 0;
        while i < self.chain.len()
            invariant
                i <= self.chain@.len(),
                forall|a: int, b: int|
                    0 <= a < i && 0 <= b < self.chain@[a].transactions@.len()
                        ==> (#[trigger] self.chain@[a].transactions@[b]).id@ != tx_id@,
            decreases self.chain@.len() - i,
        {
            let block = &self.chain[i];
            let mut j: usize = 0;
            while j < block.transactions.len()
                invariant
                    j <= block.transactions@.len(),
                    i < self.chain@.len(),
                    *block == self.chain@[i as int],
                    forall|b: int| 0 <= b < j ==> (#[trigger] block.transactions@[b]).id@ != tx_id@,
                decreases block.transactions@.len() - j,
            {
                if str_eq(block.transactions[j].id.as_str(), tx_id) {
                    return Some(&block.transactions[j]);
                }
                j = j + 1;
            }
            i = i + 1;
        }
        None
    }

    /// The verdict on `tx` against the current ledger (see `tx_verdict`).
    pub fn verify_transaction(&self, tx: &Transaction) -> (r: Result<bool, BlockchainError>)
        requires
            tx_sums_fit(self.utxo_set@, self.spent(), *tx),
        ensures
            r == tx_verdict(self.utxo_set@, self.spent(), *tx),
    {
        if !tx.is_valid() {
            return Ok(false);
        }
        if tx.is_coinbase() {
            if tx.outputs.len() > 0 {
                return Ok(tx.outputs[0].value == MINING_REWARD);
            }
            return Ok(false);
        }
        let ghost u = self.utxo_set@;
        let ghost sp = self.spent_outputs@;
        proof {
            reveal(tx_sums_fit);
        }
        let mut total_input: u64 = 0;
        let mut i: usize = 0;
        while i < tx.inputs.len()
            invariant
                i <= tx.inputs@.len(),
                u == self.utxo_set@,
                sp == self.spent_outputs@,
                tx_valid(*tx),
                !tx_is_coinbase(*tx),
                tx_sums_fit(u, sp, *tx),
                inputs_verdict(u, sp, *tx, i as nat) == Ok::<bool, BlockchainError>(true),
                total_input == funded_sum(tx.inputs@.take(i as int), u),
            decreases tx.inputs@.len() - i,
        {
            let inp = &tx.inputs[i];
            let key = (inp.tx_id.clone(), inp.vout);
            proof {
                lemma_funded_take_step(tx.inputs@, u, i as int);
            }
            if self.spent_outputs.contains_key(&key) {
                proof {
                    lemma_inputs_stuck(u, sp, *tx, (i + 1) as nat, tx.inputs@.len());
                }
                return Ok(false);
            }
            let value = match self.utxo_set.get(&key) {
                Some(o) => o.value,
                None => {
                    proof {
                        lemma_inputs_stuck(u, sp, *tx, (i + 1) as nat, tx.inputs@.len());
                    }
                    return Err(BlockchainError::UtxoNotFound { tx_id: inp.tx_id.clone(), vout: inp.vout });
                },
            };
            assert(funded_sum(tx.inputs@.take(i + 1), u) <= u64::MAX) by {
                reveal(tx_sums_fit);
                assert(inputs_verdict(u, sp, *tx, ((i + 1) - 1) as nat) == Ok::<bool, BlockchainError>(
                    true,
                ));
            }
            total_input = total_input + value;
            if inp.script_sig.signature.len() > 0 && inp.script_sig.pubkey.len() > 0 {
                let data = tx.serialize_for_verify();
                match Wallet::verify_signature(
                    inp.script_sig.pubkey.as_slice(),
                    data.as_slice(),
                    inp.script_sig.signature.as_slice(),
                ) {
                    Ok(true) => {},
                    Ok(false) => {
                        proof {
                            lemma_inputs_stuck(u, sp, *tx, (i + 1) as nat, tx.inputs@.len());
                        }
                        return Ok(false);
                    },
                    Err(_) => {
                        proof {
                            lemma_inputs_stuck(u, sp, *tx, (i + 1) as nat, tx.inputs@.len());
                        }
                        return Err(BlockchainError::InvalidSignature);
                    },
                }
            } else {
                proof {
                    lemma_inputs_stuck(u, sp, *tx, (i + 1) as nat, tx.inputs@.len());
                }
                return Ok(false);
            }
            i = i + 1;
        }
        assert(tx.inputs@.take(tx.inputs@.len() as int) =~= tx.inputs@);
        let total_output = sum_outputs(&tx.outputs);
        if total_output > total_input {
            return Ok(false);
        }
        Ok(true)
    }

    /// Adds a transaction to the pool after checking it; a refused
    /// transaction or one already pooled (by id) is an error.
    pub fn add_to_mempool(&mut self, tx: Transaction) -> (r: Result<(), BlockchainError>)
        requires
            tx_sums_fit(old(self).utxo_set@, old(self).spent(), tx),
        ensures
            final(self).chain == old(self).chain,
            final(self).utxo_set == old(self).utxo_set,
            final(self).spent() == old(self).spent(),
            final(self).difficulty == old(self).difficulty,
            tx_verdict(old(self).utxo_set@, old(self).spent(), tx) != Ok::<bool, BlockchainError>(
                true,
            ) ==> (r matches Err(BlockchainError::InvalidTransaction(id)) && id@ == tx.id@)
                && final(self).mempool == old(self).mempool,
            tx_verdict(old(self).utxo_set@, old(self).spent(), tx) == Ok::<bool, BlockchainError>(
                true,
            ) ==> {
                let dup = exists|j: int|
                    0 <= j < old(self).mempool@.len() && (#[trigger] old(self).mempool@[j]).id@
                        == tx.id@;
                &&& dup ==> (r matches Err(BlockchainError::DuplicateTransaction))
                    && final(self).mempool == old(self).mempool
                &&& !dup ==> r is Ok && final(self).mempool@ == old(self).mempool@.push(tx)
            },
    {
        let verdict = self.verify_transaction(&tx);
        let passed = match verdict {
            Ok(b) => b,
            Err(_) => false,
        };
        if !passed {
            return Err(BlockchainError::InvalidTransaction(tx.id.clone()));
        }
        assert(tx_verdict(self.utxo_set@, self.spent(), tx) == Ok::<bool, BlockchainError>(true));
        let mut j: usize = 0;
        while j < self.mempool.len()
            invariant
                j <= self.mempool@.len(),
                self.mempool == old(self).mempool,
                self.chain == old(self).chain,
                self.utxo_set == old(self).utxo_set,
                self.spent_outputs == old(self).spent_outputs,
                self.difficulty == old(self).difficulty,
                tx_verdict(old(self).utxo_set@, old(self).spent(), tx) == Ok::<bool, BlockchainError>(
                    true,
                ),
                forall|k: int| 0 <= k < j ==> (#[trigger] self.mempool@[k]).id@ != tx.id@,
            decreases self.mempool@.len() - j,
        {
            if str_eq(self.mempool[j].id.as_str(), tx.id.as_str()) {
                return Err(BlockchainError::DuplicateTransaction);
            }
            j = j + 1;
        }
        self.mempool.push(tx);
        Ok(())
    }

    /// The verdict on the transactions of `block`, in order.
    fn check_block_txs(&self, block: &Block) -> (r: Result<(), BlockchainError>)
        requires
            txs_sums_fit(self.utxo_set@, self.spent(), block.transactions@),
        ensures
            r == txs_verdict(self.utxo_set@, self.spent(), block.transactions@, block.transactions@.len()),
    {
        let ghost u = self.utxo_set@;
        let ghost sp = self.spent_outputs@;
        let ghost txs = block.transactions@;
        let mut i: usize = 0;
        while i < block.transactions.len()
            invariant
                i <= txs.len(),
                txs == block.transactions@,
                u == self.utxo_set@,
                sp == self.spent_outputs@,
                txs_sums_fit(u, sp, txs),
                txs_verdict(u, sp, txs, i as nat) == Ok::<(), BlockchainError>(()),
            decreases txs.len() - i,
        {
            let tx = &block.transactions[i];
            assert(tx_sums_fit(u, sp, txs[i as int])) by {
                reveal(txs_sums_fit);
            }
            let verdict = self.verify_transaction(tx);
            match verdict {
                Ok(true) => {},
                Ok(false) => {
                    proof {
                        lemma_txs_stuck(u, sp, txs, (i + 1) as nat, txs.len());
                    }
                    return Err(BlockchainError::InvalidTransaction(tx.id.clone()));
                },
                Err(e) => {
                    proof {
                        lemma_txs_stuck(u, sp, txs, (i + 1) as nat, txs.len());
                    }
                    return Err(e);
                },
            }
            i = i + 1;
        }
        Ok(())
    }

    /// Appends a block after checking its height, its link to the last
    /// block, its validity and each of its transactions; the ledger then
    /// takes in its transactions.
    pub fn add_block(&mut self, block: Block) -> (r: Result<(), BlockchainError>)
        requires
            old(self).chain@.len() >= 1,
            txs_sums_fit(old(self).utxo_set@, old(self).spent(), block.transactions@),
        ensures
            final(self).mempool == old(self).mempool,
            final(self).difficulty == old(self).difficulty,
            final(self).mining_reward_addr == old(self).mining_reward_addr,
            ({
                let h = (old(self).chain@.len() - 1) as u64;
                let u = old(self).utxo_set@;
                let sp = old(self).spent();
                let txs = block.transactions@;
                &&& block.height != h + 1 ==> (r matches Err(
                    BlockchainError::InvalidHeight { expected, got },
                ) && expected == h + 1 && got == block.height)
                &&& block.height == h + 1 && block.header.prev_hash@ != old(self).chain@.last().hash@
                    ==> (r matches Err(BlockchainError::InvalidPreviousHash))
                &&& block.height == h + 1 && block.header.prev_hash@ == old(self).chain@.last().hash@
                    && !block_valid(block, old(self).difficulty as nat) ==> (r matches Err(
                    BlockchainError::InvalidBlock,
                ))
                &&& block.height == h + 1 && block.header.prev_hash@ == old(self).chain@.last().hash@
                    && block_valid(block, old(self).difficulty as nat) ==> match txs_verdict(
                    u,
                    sp,
                    txs,
                    txs.len(),
                ) {
                    Ok(()) => r is Ok,
                    Err(e) => r == Err::<(), BlockchainError>(e),
                }
                &&& r is Err ==> final(self).chain == old(self).chain && final(self).utxo_set
                    == old(self).utxo_set && final(self).spent() == old(self).spent()
                &&& r is Ok ==> final(self).chain@ == old(self).chain@.push(block) && (
                final(self).utxo_set@,
                final(self).spent(),
            ) == apply_txs(u, sp, txs, txs.len())
            }),
            old(self).wf() && r is Ok ==> final(self).wf(),
    {
        let n = self.chain.len();
        assert(n <= usize::MAX);
        let expected_height = self.get_height() + 1;
        if block.height != expected_height {
            return Err(BlockchainError::InvalidHeight { expected: expected_height, got: block.height });
        }
        let last_block = self.get_last_block();
        if !str_eq(block.header.prev_hash.as_str(), last_block.hash.as_str()) {
            return Err(BlockchainError::InvalidPreviousHash);
        }
        if !block.is_valid(self.difficulty) {
            return Err(BlockchainError::InvalidBlock);
        }
        match self.check_block_txs(&block) {
            Ok(()) => {},
            Err(e) => {
                return Err(e);
            },
        }
        apply_block_to(&mut self.utxo_set, &mut self.spent_outputs, &block);
        let ghost old_chain = self.chain@;
        self.chain.push(block);
        proof {
            lemma_ledger_push(old_chain, self.chain@.last());
        }
        Ok(())
    }

    /// Mines a block on top of the chain: a coinbase paying the reward to
    /// `miner_addr`, then up to 100 pool transactions that pass their check
    /// (the rest stay pooled), then proof-of-work and `add_block`.
    #[verifier::rlimit(80)]
    pub fn mine_block(&mut self, miner_addr: String) -> (r: Result<Block, BlockchainError>)
        requires
            old(self).chain@.len() >= 1,
            pool_sums_fit(old(self).utxo_set@, old(self).spent(), old(self).mempool@),
        ensures
            ({
                let u = old(self).utxo_set@;
                let sp = old(self).spent();
                let (picked, rest) = pick(u, sp, old(self).mempool@, old(self).mempool@.len());
                let h = (old(self).chain@.len() - 1) as u64;
                &&& final(self).mempool@ == rest
                &&& final(self).difficulty == old(self).difficulty
                &&& r is Err ==> (r matches Err(BlockchainError::InvalidBlock)) && final(self).chain
                    == old(self).chain && final(self).utxo_set == old(self).utxo_set
                    && final(self).spent() == old(self).spent()
                &&& r matches Ok(b) ==> {
                    &&& final(self).chain@.len() == old(self).chain@.len() + 1
                    &&& final(self).chain@.drop_last() == old(self).chain@
                    &&& block_eqv(b, final(self).chain@.last())
                    &&& b.height == h + 1
                    &&& b.header.prev_hash@ == old(self).chain@.last().hash@
                    &&& meets_difficulty(b.hash@, old(self).difficulty as nat)
                    &&& forall|n: u64|
                        n < b.header.nonce ==> !meets_difficulty(
                            #[trigger] nonce_hash(final(self).chain@.last().header, n),
                            old(self).difficulty as nat,
                        )
                    &&& b.transactions@.len() == picked.len() + 1
                    &&& Transaction::is_coinbase_of(
                        final(self).chain@.last().transactions@[0],
                        miner_addr@,
                        MINING_REWARD,
                        h as u64,
                    )
                    &&& final(self).chain@.last().transactions@.drop_first() == picked
                    &&& (final(self).utxo_set@, final(self).spent()) == apply_txs(
                        u,
                        sp,
                        final(self).chain@.last().transactions@,
                        final(self).chain@.last().transactions@.len(),
                    )
                }
                &&& old(self).wf() && r is Ok ==> final(self).wf()
                // a refusal means no nonce at all gives the candidate block a
                // hash meeting the difficulty
                &&& r is Err ==> exists|hd: BlockHeader, cb: Transaction|
                    #![trigger block_hash(hd), Transaction::is_coinbase_of(cb, miner_addr@, MINING_REWARD, h as u64)]
                    {
                        &&& hd.version == 1
                        &&& hd.bits == 0x1d00ffff
                        &&& hd.prev_hash@ == old(self).chain@.last().hash@
                        &&& Transaction::is_coinbase_of(cb, miner_addr@, MINING_REWARD, h as u64)
                        &&& hd.merkle_root@ == merkle_root_of(seq![cb] + picked)
                        &&& forall|n: u64| !meets_difficulty(#[trigger] nonce_hash(hd, n), old(self).difficulty as nat)
                    }
            }),
    {
        let ghost u = self.utxo_set@;
        let ghost sp = self.spent_outputs@;
        let ghost pool = self.mempool@;
        let height = self.get_height();
        let nblocks = self.chain.len();
        assert(nblocks <= usize::MAX);
        assert(height < u64::MAX);
        let ghost to = miner_addr@;
        let coinbase = Transaction::new_coinbase(miner_addr, MINING_REWARD, height);
        let mut mempool_txs: Vec<Transaction> = Vec::new();
        std::mem::swap(&mut mempool_txs, &mut self.mempool);
        let mut valid_txs: Vec<Transaction> = Vec::new();
        let mut remaining_txs: Vec<Transaction> = Vec::new();
        let n = mempool_txs.len();
        let mut i: usize = 0;
        while i < n
            invariant
                n == pool.len(),
                i <= n,
                mempool_txs@ == pool.skip(i as int),
                u == self.utxo_set@,
                sp == self.spent_outputs@,
                self.chain == old(self).chain,
                self.difficulty == old(self).difficulty,
                self.mining_reward_addr == old(self).mining_reward_addr,
                pool == old(self).mempool@,
                u == old(self).utxo_set@,
                sp == old(self).spent(),
                pool_sums_fit(u, sp, pool),
                (valid_txs@, remaining_txs@) == pick(u, sp, pool, i as nat),
            decreases n - i,
        {
            let tx = mempool_txs.remove(0);
            assert(tx == pool[i as int]);
            assert(mempool_txs@ =~= pool.skip(i + 1));
            if valid_txs.len() >= 100 {
                remaining_txs.push(tx);
            } else {
                proof {
                    lemma_pool_fit_at(u, sp, pool, i as int);
                }
                let ok = match self.verify_transaction(&tx) {
                    Ok(b) => b,
                    Err(_) => false,
                };
                if ok {
                    valid_txs.push(tx);
                } else {
                    remaining_txs.push(tx);
                }
            }
            i = i + 1;
        }
        self.mempool = remaining_txs;
        proof {
            lemma_pick_props(u, sp, pool, n as nat);
        }
        let ghost picked = valid_txs@;
        let ghost cb = coinbase;
        let mut transactions: Vec<Transaction> = Vec::new();
        transactions.push(coinbase);
        transactions.append(&mut valid_txs);
        assert(transactions@ =~= seq![cb] + picked);
        let prev = self.get_last_block().hash.clone();
        let mut new_block = Block::new(height + 1, prev, transactions, 0x1d00ffff);
        new_block.mine(self.difficulty);
        let copy = dup_block(&new_block);
        let ghost mined = new_block;
        assert(forall|n: u64|
            n < mined.header.nonce ==> !meets_difficulty(
                #[trigger] nonce_hash(mined.header, n),
                self.difficulty as nat,
            ));
        proof {
            lemma_block_of_picked(
                u,
                sp,
                mined.transactions@[0],
                to,
                height,
                picked,
                mined.transactions@,
            );
        }
        match self.add_block(new_block) {
            Ok(()) => Ok(copy),
            Err(e) => {
                proof {
                    assert(!meets_difficulty(mined.hash@, self.difficulty as nat));
                    assert(mined.header.nonce == u64::MAX);
                    let hd = mined.header;
                    assert(with_nonce(hd, hd.nonce) == hd);
                    assert forall|n: u64| !meets_difficulty(#[trigger] nonce_hash(hd, n), old(self).difficulty as nat) by {
                        if n == u64::MAX {
                            assert(nonce_hash(hd, n) == block_hash(hd));
                        }
                    }
                    assert(block_hash(hd) == block_hash(hd));
                    assert(Transaction::is_coinbase_of(cb, to, MINING_REWARD, height));
                    assert(mined.transactions@ == seq![cb] + picked);
                }
                Err(e)
            },
        }
    }

    /// A chain holding only the genesis block: a coinbase of the block
    /// reward to `"YRustGenesis"`, mined at the default difficulty.
    pub fn new() -> (r: Self)
        ensures
            r.wf(),
            r.chain@.len() == 1,
            r.chain@[0].height == 0,
            r.chain@[0].header.prev_hash@ == seq!['0'],
            r.chain@[0].transactions@.len() == 1,
            Transaction::is_coinbase_of(r.chain@[0].transactions@[0], "YRustGenesis"@, MINING_REWARD, 0),
            r.chain@[0].hash@ == block_hash(r.chain@[0].header),
            meets_difficulty(r.chain@[0].hash@, DIFFICULTY as nat) || r.chain@[0].header.nonce
                == u64::MAX,
            forall|n: u64|
                n < r.chain@[0].header.nonce ==> !meets_difficulty(
                    #[trigger] nonce_hash(r.chain@[0].header, n),
                    DIFFICULTY as nat,
                ),
            r.mempool@.len() == 0,
            r.difficulty == DIFFICULTY,
            r.mining_reward_addr is None,
    {
        let genesis = Self::create_genesis_block();
        let mut chain: Vec<Block> = Vec::new();
        chain.push(genesis);
        let mut bc = Blockchain {
            chain,
            utxo_set: KeyMap::new(),
            mempool: Vec::new(),
            difficulty: DIFFICULTY,
            mining_reward_addr: None,
            spent_outputs: KeyMap::new(),
        };
        bc.rebuild_utxo_set();
        bc
    }

    fn create_genesis_block() -> (r: Block)
        ensures
            r.height == 0,
            r.header.prev_hash@ == seq!['0'],
            r.transactions@.len() == 1,
            Transaction::is_coinbase_of(r.transactions@[0], "YRustGenesis"@, MINING_REWARD, 0),
            r.hash@ == block_hash(r.header),
            meets_difficulty(r.hash@, DIFFICULTY as nat) || r.header.nonce == u64::MAX,
            forall|n: u64| n < r.header.nonce ==> !meets_difficulty(#[trigger] nonce_hash(r.header, n), DIFFICULTY as nat),
    {
        let coinbase = Transaction::new_coinbase("YRustGenesis".to_owned(), MINING_REWARD, 0);
        let mut txs: Vec<Transaction> = Vec::new();
        txs.push(coinbase);
        let mut zero = String::new();
        push_char(&mut zero, '0');
        let mut block = Block::new(0, zero, txs, 0x1d00ffff);
        block.mine(DIFFICULTY);
        block
    }

    fn find_spendable_utxos(&self, address: &str, min_amount: u64) -> (r: Vec<((String, u32), TxOutput)>)
        requires
            ({
                let m = spendable_of(self.utxo_set.entries(), self.spent(), address@);
                let c = cover_len(m, min_amount as int, 0);
                keyed_sum(m.take(if c <= m.len() { c as int } else { m.len() as int })) <= u64::MAX
            }),
        ensures
            r@ == chosen_outputs(self.utxo_set.entries(), self.spent(), address@, min_amount),
            distinct_keys(self.utxo_set.entries()),
            self.utxo_set@ == entries_map(self.utxo_set.entries()),
    {
        let n = self.utxo_set.len();
        let ghost es = self.utxo_set.entries();
        let ghost m = spendable_of(es, self.spent_outputs@, address@);
        let ghost c = cover_len(m, min_amount as int, 0);
        let mut result: Vec<((String, u32), TxOutput)> = Vec::new();
        let mut total: u64 = 0;
        let mut i: usize = 0;
        let mut covered = false;
        while i < n
            invariant
                n == es.len(),
                es == self.utxo_set.entries(),
                i <= n,
                m == spendable_of(es, self.spent_outputs@, address@),
                c == cover_len(m, min_amount as int, 0),
                result@.len() <= m.len(),
                result@ == m.take(result@.len() as int),
                !covered ==> result@ == spendable_of(es.take(i as int), self.spent_outputs@, address@),
                total == keyed_sum(result@),
                keyed_sum(m.take(if c <= m.len() { c as int } else { m.len() as int })) <= u64::MAX,
                forall|j: int| 1 <= j < result@.len() ==> #[trigger] keyed_sum(m.take(j)) < min_amount,
                !covered && result@.len() > 0 ==> keyed_sum(m.take(result@.len() as int)) < min_amount,
                covered ==> result@.len() > 0 && c == result@.len() && total >= min_amount,
            decreases n - i,
        {
            if !covered {
                proof {
                    assert(es.take(i + 1).drop_last() =~= es.take(i as int));
                    lemma_spendable_prefix(es, self.spent_outputs@, address@, i + 1);
                    lemma_cover_skip(m, min_amount as int, result@.len() as nat);
                }
                let (k, o) = self.utxo_set.entry_at(i);
                if str_eq(o.script_pubkey.as_str(), address) && !self.spent_outputs.contains_key(k) {
                    let ghost len0 = result@.len();
                    proof {
                        lemma_keyed_sum_step(m, len0 as int);
                        assert(m.take(len0 as int) == result@);
                        assert(m[len0 as int] == es[i as int]);
                        lemma_cover_ge(m, min_amount as int, len0 as nat);
                        if c <= m.len() {
                            assert(c >= len0 + 1);
                            assert(keyed_sum(m.take((len0 + 1) as int)) <= keyed_sum(m.take(c as int))) by {
                                lemma_keyed_prefix_mono(m, (len0 + 1) as int, c as int);
                            }
                        } else {
                            lemma_keyed_prefix_mono(m, (len0 + 1) as int, m.len() as int);
                        }
                    }
                    result.push(((k.0.clone(), k.1), dup_output(o)));
                    total = total + o.value;
                    assert(result@ =~= m.take(result@.len() as int));
                    if total >= min_amount {
                        covered = true;
                        proof {
                            lemma_cover_skip(m, min_amount as int, len0 as nat);
                        }
                    }
                }
            }
            i = i + 1;
        }
        proof {
            if !covered {
                assert(es.take(n as int) =~= es);
                if result@.len() > 0 {
                    lemma_cover_skip(m, min_amount as int, result@.len() as nat);
                } else {
                    lemma_cover_skip(m, min_amount as int, 0);
                }
            }
        }
        if covered || total >= min_amount {
            result
        } else {
            Vec::new()
        }
    }

    /// Builds and signs a payment of `amount` from `from_wallet` to
    /// `to_address`: the chosen unspent outputs of the sender as inputs, the
    /// payment and any change as outputs.
    pub fn create_transaction(&mut self, from_wallet: &Wallet, to_address: String, amount: u64) -> (r:
        Result<Transaction, BlockchainError>)
        requires
            spend_fits(old(self).utxo_set.entries(), old(self).spent(), from_wallet.address@, amount),
        ensures
            final(self).chain == old(self).chain,
            final(self).utxo_set == old(self).utxo_set,
            final(self).spent() == old(self).spent(),
            final(self).mempool == old(self).mempool,
            ({
                let chosen = chosen_outputs(
                    old(self).utxo_set.entries(),
                    old(self).spent(),
                    from_wallet.address@,
                    amount,
                );
                &&& chosen.len() == 0 ==> (r matches Err(BlockchainError::InsufficientBalance))
                &&& chosen.len() > 0 && (hex_decode_spec(from_wallet.public_key@) is None || parsed_key(
                    from_wallet.private_key@,
                ) is None) ==> (r matches Err(BlockchainError::WalletError))
                &&& r matches Ok(t) ==> {
                    let pk = hex_decode_spec(from_wallet.public_key@).unwrap();
                    let sk = parsed_key(from_wallet.private_key@).unwrap();
                    let change = keyed_sum(chosen) - amount;
                    &&& chosen.len() > 0
                    &&& t.version == 1
                    &&& t.id@ == tx_hash(t)
                    &&& t.inputs@.len() == chosen.len()
                    &&& forall|i: int|
                        0 <= i < chosen.len() ==> {
                            &&& (#[trigger] t.inputs@[i]).tx_id@ == chosen[i].0.0@
                            &&& t.inputs@[i].vout == chosen[i].0.1
                            &&& t.inputs@[i].script_sig.pubkey@ == pk
                            &&& t.inputs@[i].script_sig.signature@ == ecdsa_sign_spec(
                                double_sha256_spec(vstd::utf8::encode_utf8(sign_text(t))),
                                sk,
                            )
                        }
                    &&& change >= 0
                    &&& t.outputs@.len() == if change > 0 {
                        2int
                    } else {
                        1int
                    }
                    &&& t.outputs@[0].value == amount && t.outputs@[0].script_pubkey@ == to_address@
                    &&& change > 0 ==> t.outputs@[1].value == change && t.outputs@[1].script_pubkey@
                        == from_wallet.address@
                }
                &&& chosen.len() > 0 && hex_decode_spec(from_wallet.public_key@) is Some && parsed_key(
                    from_wallet.private_key@,
                ) is Some ==> r is Ok
            }),
            // a payment made from a sound wallet passes verification against
            // the ledger it was made from (where no output is keyed by the
            // coinbase id "0")
            r matches Ok(t) ==> (wallet_sound(*from_wallet) && (forall|k: OutKey|
                #[trigger] old(self).utxo_set@.contains_key(k) ==> !is_zero_id(k.0)) ==> tx_verdict(
                old(self).utxo_set@,
                old(self).spent(),
                t,
            ) == Ok::<bool, BlockchainError>(true)),
    {
        let utxos = self.find_spendable_utxos(from_wallet.address.as_str(), amount);
        let ghost chosen = utxos@;
        let ghost m = spendable_of(self.utxo_set.entries(), self.spent_outputs@, from_wallet.address@);
        let ghost c = cover_len(m, amount as int, 0);
        if utxos.len() == 0 {
            return Err(BlockchainError::InsufficientBalance);
        }
        proof {
            if c > m.len() {
                assert(amount == 0);
                assert(m.len() > 0);
                lemma_keyed_sum_nonneg(m.take(1));
                assert(cover_len(m, amount as int, 0) == 1);
            }
            lemma_cover_sum(m, amount as int, 0);
            assert(chosen == m.take(c as int));
        }
        let mut total_input: u64 = 0;
        let mut i: usize = 0;
        while i < utxos.len()
            invariant
                i <= utxos@.len(),
                utxos@ == chosen,
                total_input == keyed_sum(chosen.take(i as int)),
                keyed_sum(chosen) <= u64::MAX,
            decreases utxos@.len() - i,
        {
            proof {
                lemma_keyed_sum_step(chosen, i as int);
                lemma_keyed_prefix_mono(chosen, (i + 1) as int, chosen.len() as int);
                assert(chosen.take(chosen.len() as int) =~= chosen);
            }
            total_input = total_input + utxos[i].1.value;
            i = i + 1;
        }
        assert(chosen.take(chosen.len() as int) =~= chosen);
        let pubkey = match hex_decode(from_wallet.public_key.as_str()) {
            Some(p) => p,
            None => {
                return Err(BlockchainError::WalletError);
            },
        };
        let mut inputs: Vec<TxInput> = Vec::new();
        let mut j: usize = 0;
        while j < utxos.len()
            invariant
                j <= utxos@.len(),
                utxos@ == chosen,
                inputs@.len() == j,
                forall|k: int|
                    0 <= k < j ==> (#[trigger] inputs@[k]).tx_id@ == chosen[k].0.0@ && inputs@[k].vout
                        == chosen[k].0.1,
            decreases utxos@.len() - j,
        {
            inputs.push(
                TxInput {
                    tx_id: utxos[j].0.0.clone(),
                    vout: utxos[j].0.1,
                    script_sig: ScriptSig { signature: Vec::new(), pubkey: to_vec(pubkey.as_slice()) },
                },
            );
            j = j + 1;
        }
        let mut outputs: Vec<TxOutput> = Vec::new();
        outputs.push(TxOutput { value: amount, script_pubkey: to_address });
        let change = total_input - amount;
        if change > 0 {
            outputs.push(TxOutput { value: change, script_pubkey: from_wallet.address.clone() });
        }
        let unsigned = Transaction {
            id: String::new(),
            timestamp: now_timestamp(),
            inputs,
            outputs,
            version: 1,
        };
        let tx_data = unsigned.serialize_for_sign();
        let signature = match from_wallet.sign(tx_data.as_slice()) {
            Ok(sig) => sig,
            Err(_) => {
                return Err(BlockchainError::WalletError);
            },
        };
        let mut signed: Vec<TxInput> = Vec::new();
        let mut k: usize = 0;
        while k < unsigned.inputs.len()
            invariant
                k <= unsigned.inputs@.len(),
                signed@.len() == k,
                forall|q: int|
                    0 <= q < k ==> (#[trigger] signed@[q]).tx_id@ == unsigned.inputs@[q].tx_id@
                        && signed@[q].vout == unsigned.inputs@[q].vout
                        && signed@[q].script_sig.signature@ == signature@
                        && signed@[q].script_sig.pubkey@ == pubkey@,
            decreases unsigned.inputs@.len() - k,
        {
            signed.push(
                TxInput {
                    tx_id: unsigned.inputs[k].tx_id.clone(),
                    vout: unsigned.inputs[k].vout,
                    script_sig: ScriptSig {
                        signature: to_vec(signature.as_slice()),
                        pubkey: to_vec(pubkey.as_slice()),
                    },
                },
            );
            k = k + 1;
        }
        let mut tx = Transaction {
            id: String::new(),
            timestamp: unsigned.timestamp,
            inputs: signed,
            outputs: unsigned.outputs,
            version: 1,
        };
        assert(sign_input_items(tx.inputs@) =~= sign_input_items(unsigned.inputs@));
        assert(sign_text(tx) == sign_text(unsigned));
        tx.id = tx.calculate_hash();
        proof {
            let u = self.utxo_set@;
            let sp = self.spent_outputs@;
            let es = self.utxo_set.entries();
            if wallet_sound(*from_wallet) && (forall|k: OutKey| #[trigger] u.contains_key(k) ==> !is_zero_id(k.0)) {
                let data = vstd::utf8::encode_utf8(sign_text(tx));
                assert(sign_text(tx) == sign_text(unsigned));
                assert forall|j: int| 0 <= j < chosen.len() implies u.contains_key(#[trigger] chosen[j].0@)
                    && u[chosen[j].0@] == chosen[j].1 && !sp.contains_key(chosen[j].0@) by {
                    assert(chosen[j] == m[j]);
                    lemma_spendable_member(es, sp, from_wallet.address@, j);
                    let i = choose|i: int| 0 <= i < es.len() && #[trigger] es[i] == m[j];
                    lemma_entries_map_at(es, i);
                }
                assert forall|j: int| 0 <= j < tx.inputs@.len() implies #[trigger] input_check(
                    u,
                    sp,
                    tx.inputs@[j],
                    data,
                ) == Ok::<bool, BlockchainError>(true) by {
                    assert(input_key(tx.inputs@[j]) == chosen[j].0@);
                    assert(u.contains_key(chosen[j].0@));
                }
                lemma_inputs_pass(u, sp, tx, tx.inputs@.len() as nat);
                assert forall|j: int| 0 <= j < chosen.len() implies input_key(#[trigger] tx.inputs@[j])
                    == chosen[j].0@ && u.contains_key(chosen[j].0@) && u[chosen[j].0@] == chosen[j].1 by {
                    assert(u.contains_key(chosen[j].0@));
                }
                lemma_funded_keyed(tx.inputs@, chosen, u);
                let o = tx.outputs@;
                assert(total_input == keyed_sum(chosen));
                assert(o[0].value == amount);
                if o.len() == 2 {
                    let o1 = o.drop_last();
                    assert(o1.drop_last() =~= Seq::<TxOutput>::empty());
                    assert(output_sum(o1.drop_last()) == 0);
                    assert(o1.last() == o[0]);
                    assert(output_sum(o1) == o[0].value);
                    assert(o.last() == o[1]);
                    assert(o[1].value == change);
                    assert(output_sum(o) == o[0].value + o[1].value);
                } else {
                    assert(o.len() == 1);
                    assert(change == 0);
                    assert(o.drop_last() =~= Seq::<TxOutput>::empty());
                    assert(output_sum(o.drop_last()) == 0);
                    assert(o.last() == o[0]);
                    assert(output_sum(o) == o[0].value);
                }
                assert(output_sum(tx.outputs@) == keyed_sum(chosen));
                if tx.inputs@.len() == 1 {
                    assert(u.contains_key(chosen[0].0@));
                    assert(input_key(tx.inputs@[0]) == chosen[0].0@);
                }
                assert(!tx_is_coinbase(tx));
            }
        }
        Ok(tx)
    }

    /// The transactions waiting to be mined.
    pub fn get_mempool(&self) -> (r: &[Transaction])
        ensures
            r@ == self.mempool@,
    {
        self.mempool.as_slice()
    }

    /// Number of unspent outputs recorded.
    pub fn get_utxo_count(&self) -> (r: usize)
        ensures
            r == self.utxo_set@.len(),
    {
        self.utxo_set.len()
    }

    /// Height, sizes, difficulty and tip of the chain.
    pub fn get_stats(&self) -> (r: BlockchainStats)
        requires
            self.chain@.len() >= 1,
            tx_count(self.chain@) <= usize::MAX,
        ensures
            r.height == self.chain@.len() - 1,
            r.total_blocks == self.chain@.len(),
            r.total_transactions == tx_count(self.chain@),
            r.utxo_count == self.utxo_set@.len(),
            r.mempool_size == self.mempool@.len(),
            r.difficulty == self.difficulty,
            r.best_block_hash@ == self.chain@.last().hash@,
    {
        let mut total: usize = 0;
        let mut i: usize = 0;
        while i < self.chain.len()
            invariant
                i <= self.chain@.len(),
                total == tx_count(self.chain@.take(i as int)),
                tx_count(self.chain@) <= usize::MAX,
            decreases self.chain@.len() - i,
        {
            proof {
                assert(self.chain@.take(i + 1).drop_last() =~= self.chain@.take(i as int));
                lemma_tx_count_prefix(self.chain@, i + 1);
            }
            total = total + self.chain[i].transactions.len();
            i = i + 1;
        }
        assert(self.chain@.take(self.chain@.len() as int) =~= self.chain@);
        BlockchainStats {
            height: self.get_height(),
            total_blocks: self.chain.len() as u64,
            total_transactions: total as u64,
            utxo_count: self.utxo_set.len(),
            mempool_size: self.mempool.len(),
            difficulty: self.difficulty,
            best_block_hash: self.get_last_block().hash.clone(),
        }
    }
}

impl Default for Blockchain {
    fn default() -> (r: Self)
        ensures
            r.wf(),
            r.chain@.len() == 1,
            r.mempool@.len() == 0,
            r.difficulty == DIFFICULTY,
    {
        Blockchain::new()
    }
}

} // verus!
