//! Explorer queries over the chain: responses, block listings, transaction
//! details and address summaries.
use vstd::prelude::*;
use crate::chain::blockchain::{Blockchain, balance_sum, dup_block, block_eqv};
use crate::chain::types::{Block, Transaction, TxInput, TxOutput, tx_is_coinbase};
use crate::text::{push_str, push_decimal, decimal, str_eq};
use crate::wallet::{Wallet, address_valid};

verus! {

/// A response: the data on success, the message on failure.
pub struct ApiResponse<T> {
    pub success: bool,
    pub data: Option<T>,
    pub error: Option<String>,
}

impl<T> ApiResponse<T> {
    pub fn success(data: T) -> (r: Self)
        ensures
            r.success,
            r.data == Some(data),
            r.error is None,
    {
        ApiResponse { success: true, data: Some(data), error: None }
    }

    pub fn error(msg: String) -> (r: Self)
        ensures
            !r.success,
            r.data is None,
            r.error == Some(msg),
    {
        ApiResponse { success: false, data: None, error: Some(msg) }
    }
}

/// The latest blocks and the number of blocks.
pub struct BlocksResponse {
    pub blocks: Vec<BlockSummary>,
    pub total: u64,
}

/// A block in a listing.
pub struct BlockSummary {
    pub height: u64,
    pub hash: String,
    pub timestamp: i64,
    pub tx_count: usize,
    /// The address paid by the first output of the first transaction.
    pub miner: String,
}

/// A transaction with where it stands.
pub struct TransactionDetail {
    pub id: String,
    pub timestamp: i64,
    pub inputs: Vec<TxInputDetail>,
    pub outputs: Vec<TxOutputDetail>,
    pub block_height: Option<u64>,
    pub block_hash: Option<String>,
    pub is_coinbase: bool,
}

/// An input of a detailed transaction (its address and value are not looked up).
pub struct TxInputDetail {
    pub tx_id: String,
    pub vout: u32,
    pub address: String,
    pub value: u64,
}

/// An output of a detailed transaction.
pub struct TxOutputDetail {
    pub index: u32,
    pub address: String,
    pub value: u64,
}

/// What an address holds and has received.
pub struct AddressInfo {
    pub address: String,
    pub balance: u64,
    pub tx_count: u64,
    pub received: u64,
    pub sent: u64,
}

/// A request to mine to an address.
pub struct MineRequest {
    pub miner_address: String,
}

/// A request to pay from a private key.
pub struct TransferRequest {
    pub from_private_key: String,
    pub to_address: String,
    pub amount: u64,
}

/// A new wallet's keys and address.
pub struct WalletResponse {
    pub address: String,
    pub public_key: String,
    pub private_key: String,
}

/// The miner of a block: the address of the first output of its first transaction, if any.
pub open spec fn miner_of(b: Block) -> Seq<char> {
    if b.transactions@.len() > 0 && b.transactions@[0].outputs@.len() > 0 {
        b.transactions@[0].outputs@[0].script_pubkey@
    } else {
        Seq::empty()
    }
}

/// `s` summarises block `b`.
pub open spec fn summarises(s: BlockSummary, b: Block) -> bool {
    &&& s.height == b.height
    &&& s.hash@ == b.hash@
    &&& s.timestamp == b.header.timestamp
    &&& s.tx_count == b.transactions@.len()
    &&& s.miner@ == miner_of(b)
}

fn summary_of(b: &Block) -> (r: BlockSummary)
    ensures
        summarises(r, *b),
{
    let miner = if b.transactions.len() > 0 && b.transactions[0].outputs.len() > 0 {
        b.transactions[0].outputs[0].script_pubkey.clone()
    } else {
        String::new()
    };
    BlockSummary {
        height: b.height,
        hash: b.hash.clone(),
        timestamp: b.header.timestamp,
        tx_count: b.transactions.len(),
        miner,
    }
}

/// The latest 50 blocks, newest first, and the number of blocks.
pub fn blocks_overview(bc: &Blockchain) -> (r: BlocksResponse)
    requires
        bc.chain@.len() >= 1,
    ensures
        r.total == bc.chain@.len(),
        r.blocks@.len() == if bc.chain@.len() < 50 { bc.chain@.len() as int } else { 50 },
        forall|k: int| 0 <= k < r.blocks@.len() ==> summarises(#[trigger] r.blocks@[k], bc.chain@[bc.chain@.len() - 1 - k]),
{
    let n = bc.chain.len();
    let take = if n < 50 { n } else { 50 };
    let mut blocks: Vec<BlockSummary> = Vec::new();
    let mut k: usize = 0;
    while k < take
        invariant
            n == bc.chain@.len(),
            take <= n,
            take == if n < 50 { n as int } else { 50 },
            k <= take,
            blocks@.len() == k,
            forall|j: int| 0 <= j < k ==> summarises(#[trigger] blocks@[j], bc.chain@[n - 1 - j]),
        decreases take - k,
    {
        blocks.push(summary_of(&bc.chain[n - 1 - k]));
        k = k + 1;
    }
    BlocksResponse { blocks, total: bc.get_height() + 1 }
}

/// `d` details transaction `t`, found at `height` in the block `hash` (or pooled).
pub open spec fn details(d: TransactionDetail, t: Transaction, height: Option<u64>, hash: Option<Seq<char>>) -> bool {
    &&& d.id@ == t.id@
    &&& d.timestamp == t.timestamp
    &&& d.inputs@.len() == t.inputs@.len()
    &&& forall|k: int| 0 <= k < t.inputs@.len() ==> {
        let x = #[trigger] d.inputs@[k];
        x.tx_id@ == t.inputs@[k].tx_id@ && x.vout == t.inputs@[k].vout && x.address@ == "unknown"@ && x.value == 0
    }
    &&& d.outputs@.len() == t.outputs@.len()
    &&& forall|k: int| 0 <= k < t.outputs@.len() ==> {
        let y = #[trigger] d.outputs@[k];
        y.index == k as u32 && y.address@ == t.outputs@[k].script_pubkey@ && y.value == t.outputs@[k].value
    }
    &&& d.block_height == height
    &&& match (d.block_hash, hash) {
        (Some(a), Some(b)) => a@ == b,
        (None, None) => true,
        _ => false,
    }
    &&& d.is_coinbase == tx_is_coinbase(t)
}

/// The details of `tx` at `block_height` in `block_hash`.
pub fn transaction_to_detail(tx: &Transaction, block_height: Option<u64>, block_hash: Option<&str>) -> (r: TransactionDetail)
    ensures
        details(r, *tx, block_height, match block_hash { Some(h) => Some(h@), None => None }),
{
    let mut inputs: Vec<TxInputDetail> = Vec::new();
    let mut i: usize = 0;
    proof {
        reveal_strlit("unknown");
    }
    while i < tx.inputs.len()
        invariant
            i <= tx.inputs@.len(),
            inputs@.len() == i,
            forall|k: int| 0 <= k < i ==> {
                let x = #[trigger] inputs@[k];
                x.tx_id@ == tx.inputs@[k].tx_id@ && x.vout == tx.inputs@[k].vout && x.address@ == "unknown"@ && x.value == 0
            },
        decreases tx.inputs@.len() - i,
    {
        inputs.push(TxInputDetail { tx_id: tx.inputs[i].tx_id.clone(), vout: tx.inputs[i].vout, address: "unknown".to_string(), value: 0 });
        i = i + 1;
    }
    let mut outputs: Vec<TxOutputDetail> = Vec::new();
    let mut j: usize = 0;
    while j < tx.outputs.len()
        invariant
            j <= tx.outputs@.len(),
            outputs@.len() == j,
            forall|k: int| 0 <= k < j ==> {
                let y = #[trigger] outputs@[k];
                y.index == k as u32 && y.address@ == tx.outputs@[k].script_pubkey@ && y.value == tx.outputs@[k].value
            },
        decreases tx.outputs@.len() - j,
    {
        outputs.push(TxOutputDetail { index: j as u32, address: tx.outputs[j].script_pubkey.clone(), value: tx.outputs[j].value });
        j = j + 1;
    }
    let block_hash = match block_hash {
        Some(h) => Some(h.to_string()),
        None => None,
    };
    TransactionDetail {
        id: tx.id.clone(),
        timestamp: tx.timestamp,
        inputs,
        outputs,
        block_height,
        block_hash,
        is_coinbase: tx.is_coinbase(),
    }
}

/// `tx_id` occurs in no block.
pub open spec fn not_in_chain(chain: Seq<Block>, tx_id: Seq<char>) -> bool {
    forall|b: int, t: int| 0 <= b < chain.len() && 0 <= t < chain[b].transactions@.len() ==> (#[trigger] chain[b].transactions@[t]).id@ != tx_id
}

/// The details of the first transaction with id `tx_id`: blocks first, in
/// order, then the pool; an error message when there is none.
pub fn find_transaction(bc: &Blockchain, tx_id: &str) -> (r: ApiResponse<TransactionDetail>)
    ensures
        r.success ==> {
            &&& r.data matches Some(d)
            &&& d.id@ == tx_id@
            &&& (exists|b: int, t: int|
                0 <= b < bc.chain@.len() && 0 <= t < bc.chain@[b].transactions@.len() && #[trigger] details(
                    d,
                    bc.chain@[b].transactions@[t],
                    Some(bc.chain@[b].height),
                    Some(bc.chain@[b].hash@),
                )) || (not_in_chain(bc.chain@, tx_id@) && exists|t: int| 0 <= t < bc.mempool@.len() && #[trigger] details(
                    d,
                    bc.mempool@[t],
                    None,
                    None,
                ))
        },
        !r.success ==> {
            &&& r.error matches Some(m)
            &&& m@ == "交易 "@ + tx_id@ + " 不存在"@
            &&& not_in_chain(bc.chain@, tx_id@)
            &&& forall|t: int| 0 <= t < bc.mempool@.len() ==> (#[trigger] bc.mempool@[t]).id@ != tx_id@
        },
{
    let mut b: usize = 0;
    while b < bc.chain.len()
        invariant
            b <= bc.chain@.len(),
            forall|x: int, t: int| 0 <= x < b && 0 <= t < bc.chain@[x].transactions@.len() ==> (#[trigger] bc.chain@[x].transactions@[t]).id@ != tx_id@,
        decreases bc.chain@.len() - b,
    {
        let block = &bc.chain[b];
        let mut t: usize = 0;
        while t < block.transactions.len()
            invariant
                b < bc.chain@.len(),
                *block == bc.chain@[b as int],
                t <= block.transactions@.len(),
                forall|x: int, u: int| 0 <= x < b && 0 <= u < bc.chain@[x].transactions@.len() ==> (#[trigger] bc.chain@[x].transactions@[u]).id@ != tx_id@,
                forall|u: int| 0 <= u < t ==> (#[trigger] block.transactions@[u]).id@ != tx_id@,
            decreases block.transactions@.len() - t,
        {
            if str_eq(block.transactions[t].id.as_str(), tx_id) {
                let d = transaction_to_detail(&block.transactions[t], Some(block.height), Some(block.hash.as_str()));
                assert(details(d, bc.chain@[b as int].transactions@[t as int], Some(bc.chain@[b as int].height), Some(bc.chain@[b as int].hash@)));
                return ApiResponse::success(d);
            }
            t = t + 1;
        }
        b = b + 1;
    }
    let mut t: usize = 0;
    while t < bc.mempool.len()
        invariant
            t <= bc.mempool@.len(),
            not_in_chain(bc.chain@, tx_id@),
            forall|u: int| 0 <= u < t ==> (#[trigger] bc.mempool@[u]).id@ != tx_id@,
        decreases bc.mempool@.len() - t,
    {
        if str_eq(bc.mempool[t].id.as_str(), tx_id) {
            let d = transaction_to_detail(&bc.mempool[t], None, None);
            assert(details(d, bc.mempool@[t as int], None, None));
            return ApiResponse::success(d);
        }
        t = t + 1;
    }
    let mut m = String::new();
    push_str(&mut m, "交易 ");
    push_str(&mut m, tx_id);
    push_str(&mut m, " 不存在");
    ApiResponse::error(m)
}

/// A copy of the block at `height`, or the message that it does not exist.
pub fn block_by_height(bc: &Blockchain, height: u64) -> (r: ApiResponse<Block>)
    ensures
        height < bc.chain@.len() ==> {
            &&& r.success
            &&& r.data matches Some(b)
            &&& block_eqv(b, bc.chain@[height as int])
        },
        height >= bc.chain@.len() ==> {
            &&& !r.success
            &&& r.error matches Some(m)
            &&& m@ == "区块 "@ + decimal(height as nat) + " 不存在"@
        },
{
    match bc.get_block_by_height(height) {
        Some(b) => ApiResponse::success(dup_block(b)),
        None => {
            let mut m = String::new();
            push_str(&mut m, "区块 ");
            push_decimal(&mut m, height);
            push_str(&mut m, " 不存在");
            ApiResponse::error(m)
        },
    }
}

/// A copy of the first block with `hash`, or the message that it does not exist.
pub fn block_by_hash(bc: &Blockchain, hash: &str) -> (r: ApiResponse<Block>)
    ensures
        r.success ==> {
            &&& r.data matches Some(b)
            &&& b.hash@ == hash@
            &&& exists|i: int| 0 <= i < bc.chain@.len() && block_eqv(b, #[trigger] bc.chain@[i])
        },
        !r.success ==> {
            &&& r.error matches Some(m)
            &&& m@ == "区块 "@ + hash@ + " 不存在"@
            &&& forall|j: int| 0 <= j < bc.chain@.len() ==> (#[trigger] bc.chain@[j]).hash@ != hash@
        },
{
    match bc.get_block_by_hash(hash) {
        Some(b) => ApiResponse::success(dup_block(b)),
        None => {
            let mut m = String::new();
            push_str(&mut m, "区块 ");
            push_str(&mut m, hash);
            push_str(&mut m, " 不存在");
            ApiResponse::error(m)
        },
    }
}

// ---------------------------------------------------------------------------
// Address summaries
// ---------------------------------------------------------------------------

/// A transaction counts for an address when one of its inputs carries a
/// public key or one of its outputs pays the address.
pub open spec fn related(t: Transaction, a: Seq<char>) -> bool {
    (exists|i: int| 0 <= i < t.inputs@.len() && (#[trigger] t.inputs@[i]).script_sig.pubkey@.len() > 0)
        || (exists|o: int| 0 <= o < t.outputs@.len() && (#[trigger] t.outputs@[o]).script_pubkey@ == a)
}

/// Amounts paid to `a` by the outputs.
pub open spec fn paid_to(outs: Seq<TxOutput>, a: Seq<char>) -> int
    decreases outs.len(),
{
    if outs.len() == 0 {
        0
    } else {
        paid_to(outs.drop_last(), a) + if outs.last().script_pubkey@ == a {
            outs.last().value as int
        } else {
            0
        }
    }
}

/// Received by `a` and related transactions over a list of transactions.
pub open spec fn txs_tally(txs: Seq<Transaction>, a: Seq<char>) -> (int, int)
    decreases txs.len(),
{
    if txs.len() == 0 {
        (0, 0)
    } else {
        let (c, r) = txs_tally(txs.drop_last(), a);
        (c + if related(txs.last(), a) { 1int } else { 0 }, r + paid_to(txs.last().outputs@, a))
    }
}

/// Received by `a` and related transactions over the blocks.
pub open spec fn chain_tally(blocks: Seq<Block>, a: Seq<char>) -> (int, int)
    decreases blocks.len(),
{
    if blocks.len() == 0 {
        (0, 0)
    } else {
        let (c, r) = chain_tally(blocks.drop_last(), a);
        let (c2, r2) = txs_tally(blocks.last().transactions@, a);
        (c + c2, r + r2)
    }
}

proof fn lemma_paid_mono(outs: Seq<TxOutput>, a: Seq<char>, i: int)
    requires
        0 <= i <= outs.len(),
    ensures
        0 <= paid_to(outs.take(i), a) <= paid_to(outs, a),
    decreases outs.len(),
{
    if i < outs.len() {
        assert(outs.drop_last().take(i) =~= outs.take(i));
        lemma_paid_mono(outs.drop_last(), a, i);
    } else {
        assert(outs.take(i) =~= outs);
        if outs.len() > 0 {
            lemma_paid_mono(outs.drop_last(), a, outs.len() - 1);
            assert(outs.drop_last().take(outs.len() - 1) =~= outs.drop_last());
        }
    }
}

proof fn lemma_txs_mono(txs: Seq<Transaction>, a: Seq<char>, i: int)
    requires
        0 <= i <= txs.len(),
    ensures
        0 <= txs_tally(txs.take(i), a).0 <= txs_tally(txs, a).0,
        0 <= txs_tally(txs.take(i), a).1 <= txs_tally(txs, a).1,
    decreases txs.len(),
{
    if i < txs.len() {
        assert(txs.drop_last().take(i) =~= txs.take(i));
        lemma_txs_mono(txs.drop_last(), a, i);
        lemma_paid_mono(txs.last().outputs@, a, txs.last().outputs@.len() as int);
    } else {
        assert(txs.take(i) =~= txs);
        if txs.len() > 0 {
            lemma_txs_mono(txs.drop_last(), a, txs.len() - 1);
            assert(txs.drop_last().take(txs.len() - 1) =~= txs.drop_last());
            lemma_paid_mono(txs.last().outputs@, a, txs.last().outputs@.len() as int);
        }
    }
}

proof fn lemma_chain_mono(blocks: Seq<Block>, a: Seq<char>, i: int)
    requires
        0 <= i <= blocks.len(),
    ensures
        0 <= chain_tally(blocks.take(i), a).0 <= chain_tally(blocks, a).0,
        0 <= chain_tally(blocks.take(i), a).1 <= chain_tally(blocks, a).1,
    decreases blocks.len(),
{
    if i < blocks.len() {
        assert(blocks.drop_last().take(i) =~= blocks.take(i));
        lemma_chain_mono(blocks.drop_last(), a, i);
        lemma_txs_mono(blocks.last().transactions@, a, blocks.last().transactions@.len() as int);
    } else {
        assert(blocks.take(i) =~= blocks);
        if blocks.len() > 0 {
            lemma_chain_mono(blocks.drop_last(), a, blocks.len() - 1);
            assert(blocks.drop_last().take(blocks.len() - 1) =~= blocks.drop_last());
            lemma_txs_mono(blocks.last().transactions@, a, blocks.last().transactions@.len() as int);
        }
    }
}

/// What `address` holds, how many transactions concern it (`related`), how
/// much it received, and what it sent (received less balance, at least 0);
/// an error for an invalid address.
pub fn address_info(bc: &Blockchain, address: String) -> (r: ApiResponse<AddressInfo>)
    requires
        balance_sum(bc.utxo_set.entries(), bc.spent(), address@) <= u64::MAX,
        chain_tally(bc.chain@, address@).0 <= u64::MAX,
        chain_tally(bc.chain@, address@).1 <= u64::MAX,
    ensures
        !address_valid(address@) ==> {
            &&& !r.success
            &&& r.error matches Some(m)
            &&& m@ == "无效的地址格式"@
        },
        address_valid(address@) ==> {
            let bal = balance_sum(bc.utxo_set.entries(), bc.spent(), address@);
            let (count, received) = chain_tally(bc.chain@, address@);
            &&& r.success
            &&& r.data matches Some(info)
            &&& info.address@ == address@
            &&& info.balance == bal
            &&& info.tx_count == count
            &&& info.received == received
            &&& info.sent == if received >= bal { received - bal } else { 0 }
        },
{
    if !Wallet::validate_address(address.as_str()) {
        return ApiResponse::error("无效的地址格式".to_string());
    }
    let balance = bc.get_balance(address.as_str());
    let mut tx_count: u64 = 0;
    let mut received: u64 = 0;
    let mut b: usize = 0;
    while b < bc.chain.len()
        invariant
            b <= bc.chain@.len(),
            (tx_count as int, received as int) == chain_tally(bc.chain@.take(b as int), address@),
            chain_tally(bc.chain@, address@).0 <= u64::MAX,
            chain_tally(bc.chain@, address@).1 <= u64::MAX,
        decreases bc.chain@.len() - b,
    {
        let block = &bc.chain[b];
        let ghost base = (tx_count as int, received as int);
        proof {
            assert(bc.chain@.take(b + 1).drop_last() =~= bc.chain@.take(b as int));
            lemma_chain_mono(bc.chain@, address@, b + 1);
        }
        let mut t: usize = 0;
        while t < block.transactions.len()
            invariant
                b < bc.chain@.len(),
                *block == bc.chain@[b as int],
                t <= block.transactions@.len(),
                base == chain_tally(bc.chain@.take(b as int), address@),
                (tx_count as int - base.0, received as int - base.1) == txs_tally(block.transactions@.take(t as int), address@),
                base.0 + txs_tally(block.transactions@, address@).0 <= u64::MAX,
                base.1 + txs_tally(block.transactions@, address@).1 <= u64::MAX,
            decreases block.transactions@.len() - t,
        {
            let tx = &block.transactions[t];
            proof {
                assert(block.transactions@.take(t + 1).drop_last() =~= block.transactions@.take(t as int));
                lemma_txs_mono(block.transactions@, address@, t + 1);
            }
            let mut is_related = false;
            let mut i: usize = 0;
            while i < tx.inputs.len()
                invariant
                    i <= tx.inputs@.len(),
                    is_related == exists|k: int| 0 <= k < i && (#[trigger] tx.inputs@[k]).script_sig.pubkey@.len() > 0,
                decreases tx.inputs@.len() - i,
            {
                if tx.inputs[i].script_sig.pubkey.len() > 0 {
                    is_related = true;
                }
                i = i + 1;
            }
            let ghost before = received as int;
            let mut o: usize = 0;
            while o < tx.outputs.len()
                invariant
                    o <= tx.outputs@.len(),
                    received as int == before + paid_to(tx.outputs@.take(o as int), address@),
                    before + paid_to(tx.outputs@, address@) <= u64::MAX,
                    is_related == ((exists|k: int| 0 <= k < tx.inputs@.len() && (#[trigger] tx.inputs@[k]).script_sig.pubkey@.len() > 0)
                        || (exists|k: int| 0 <= k < o && (#[trigger] tx.outputs@[k]).script_pubkey@ == address@)),
                decreases tx.outputs@.len() - o,
            {
                proof {
                    assert(tx.outputs@.take(o + 1).drop_last() =~= tx.outputs@.take(o as int));
                    lemma_paid_mono(tx.outputs@, address@, o + 1);
                }
                if str_eq(tx.outputs[o].script_pubkey.as_str(), address.as_str()) {
                    is_related = true;
                    received = received + tx.outputs[o].value;
                }
                o = o + 1;
            }
            proof {
                assert(tx.outputs@.take(o as int) =~= tx.outputs@);
            }
            if is_related {
                tx_count = tx_count + 1;
            }
            t = t + 1;
        }
        proof {
            assert(block.transactions@.take(t as int) =~= block.transactions@);
        }
        b = b + 1;
    }
    proof {
        assert(bc.chain@.take(b as int) =~= bc.chain@);
    }
    let sent = received.saturating_sub(balance);
    ApiResponse::success(AddressInfo { address, balance, tx_count, received, sent })
}


/// Whether the sums `address_info` reports for `address` fit in a `u64`:
/// the balance, the count of related transactions and the amount received.
pub fn address_sums_fit(bc: &Blockchain, address: &str) -> (r: bool)
    ensures
        r == (balance_sum(bc.utxo_set.entries(), bc.spent(), address@) <= u64::MAX && chain_tally(
            bc.chain@,
            address@,
        ).0 <= u64::MAX && chain_tally(bc.chain@, address@).1 <= u64::MAX),
{
    if bc.try_get_balance(address).is_none() {
        return false;
    }
    let mut tx_count: u64 = 0;
    let mut received: u64 = 0;
    let mut b: usize = 0;
    while b < bc.chain.len()
        invariant
            b <= bc.chain@.len(),
            (tx_count as int, received as int) == chain_tally(bc.chain@.take(b as int), address@),
        decreases bc.chain@.len() - b,
    {
        let block = &bc.chain[b];
        let ghost base = (tx_count as int, received as int);
        proof {
            assert(bc.chain@.take(b + 1).drop_last() =~= bc.chain@.take(b as int));
            lemma_chain_mono(bc.chain@, address@, b + 1);
        }
        let mut t: usize = 0;
        while t < block.transactions.len()
            invariant
                b < bc.chain@.len(),
                *block == bc.chain@[b as int],
                t <= block.transactions@.len(),
                base == chain_tally(bc.chain@.take(b as int), address@),
                0 <= base.0 && 0 <= base.1,
                (tx_count as int - base.0, received as int - base.1) == txs_tally(
                    block.transactions@.take(t as int),
                    address@,
                ),
                chain_tally(bc.chain@.take(b + 1), address@).0 <= chain_tally(bc.chain@, address@).0,
                chain_tally(bc.chain@.take(b + 1), address@).1 <= chain_tally(bc.chain@, address@).1,
                bc.chain@.take(b + 1).drop_last() == bc.chain@.take(b as int),
            decreases block.transactions@.len() - t,
        {
            let tx = &block.transactions[t];
            proof {
                assert(block.transactions@.take(t + 1).drop_last() =~= block.transactions@.take(t as int));
                lemma_txs_mono(block.transactions@, address@, t + 1);
                lemma_chain_mono(bc.chain@, address@, b as int);
            }
            let mut is_related = false;
            let mut i: usize = 0;
            while i < tx.inputs.len()
                invariant
                    i <= tx.inputs@.len(),
                    is_related == exists|k: int| 0 <= k < i && (#[trigger] tx.inputs@[k]).script_sig.pubkey@.len() > 0,
                decreases tx.inputs@.len() - i,
            {
                if tx.inputs[i].script_sig.pubkey.len() > 0 {
                    is_related = true;
                }
                i = i + 1;
            }
            proof {
                lemma_txs_mono(block.transactions@, address@, t + 1);
                assert(block.transactions@.take(t + 1).last() == *tx);
                assert(bc.chain@.take(b + 1).last() == *block);
                assert(base.1 + txs_tally(block.transactions@.take(t + 1), address@).1 <= chain_tally(
                    bc.chain@,
                    address@,
                ).1);
                assert(base.0 + txs_tally(block.transactions@.take(t + 1), address@).0 <= chain_tally(
                    bc.chain@,
                    address@,
                ).0);
            }
            let ghost before = received as int;
            let ghost cap = chain_tally(bc.chain@, address@).1;
            let mut o: usize = 0;
            while o < tx.outputs.len()
                invariant
                    o <= tx.outputs@.len(),
                    before + paid_to(tx.outputs@, address@) <= cap,
                    cap == chain_tally(bc.chain@, address@).1,
                    received as int == before + paid_to(tx.outputs@.take(o as int), address@),
                    is_related == ((exists|k: int| 0 <= k < tx.inputs@.len() && (#[trigger] tx.inputs@[k]).script_sig.pubkey@.len() > 0)
                        || (exists|k: int| 0 <= k < o && (#[trigger] tx.outputs@[k]).script_pubkey@ == address@)),
                decreases tx.outputs@.len() - o,
            {
                proof {
                    assert(tx.outputs@.take(o + 1).drop_last() =~= tx.outputs@.take(o as int));
                    lemma_paid_mono(tx.outputs@, address@, o + 1);
                }
                if str_eq(tx.outputs[o].script_pubkey.as_str(), address) {
                    is_related = true;
                    match received.checked_add(tx.outputs[o].value) {
                        Some(v) => {
                            received = v;
                        },
                        None => {
                            return false;
                        },
                    }
                }
                o = o + 1;
            }
            proof {
                assert(tx.outputs@.take(o as int) =~= tx.outputs@);
            }
            if is_related {
                match tx_count.checked_add(1) {
                    Some(v) => {
                        tx_count = v;
                    },
                    None => {
                        proof {
                            assert(related(*tx, address@));
                            assert(block.transactions@.take(t + 1).drop_last() =~= block.transactions@.take(
                                t as int,
                            ));
                            assert(txs_tally(block.transactions@.take(t + 1), address@).0 == txs_tally(
                                block.transactions@.take(t as int),
                                address@,
                            ).0 + 1);
                        }
                        return false;
                    },
                }
            }
            t = t + 1;
        }
        proof {
            assert(block.transactions@.take(t as int) =~= block.transactions@);
        }
        b = b + 1;
    }
    proof {
        assert(bc.chain@.take(b as int) =~= bc.chain@);
    }
    true
}

} // verus!
