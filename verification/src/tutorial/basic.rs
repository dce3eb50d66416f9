//! Blocks with a header hashed by double SHA-256, a Merkle root over their
//! transactions, proof-of-work mining and a simple chain.
use vstd::prelude::*;
use crate::chain::types::{merkle_reduce, str_views, merkle_of_hashes, meets_difficulty};
use crate::crypto::{double_sha256_bytes, double_sha256_spec, sha256_hex, sha256_hex_spec};
use crate::text::{
    push_str, push_char, push_decimal, decimal, hex_encode, hex_lower, repeat, repeat_char,
    starts_with, str_eq, prefix,
};
use vstd::string::StringSliceAdditionalSpecFns;

verus! {

#[derive(Debug, Clone)]
pub struct BlockHeader {
    pub version: u32,
    pub prev_hash: String,
    pub merkle_root: String,
    pub timestamp: u64,
    pub difficulty: u32,
    pub nonce: u64,
}

/// A transfer; its hash covers sender, receiver, amount, fee and time.
#[derive(Debug, Clone)]
pub struct Transaction {
    pub hash: String,
    pub from: String,
    pub to: String,
    pub amount: u64,
    pub fee: u64,
    pub timestamp: u64,
    pub signature: Vec<u8>,
}

#[derive(Debug, Clone)]
pub struct Block {
    pub header: BlockHeader,
    pub height: u64,
    pub hash: String,
    pub transactions: Vec<Transaction>,
}

/// Blocks, genesis first, mined at `difficulty`.
pub struct Blockchain {
    pub blocks: Vec<Block>,
    pub difficulty: u32,
}

/// The date and time a Unix timestamp stands for, as `YYYY-MM-DD HH:MM:SS UTC`.
pub uninterp spec fn timestamp_text(ts: u64) -> Seq<char>;

/// Seconds since the Unix epoch, from the system clock.
pub fn current_timestamp() -> (r: u64) {
    crate::clock::unix_seconds()
}

/// `chrono`'s rendering of a Unix timestamp as `%Y-%m-%d %H:%M:%S UTC`
/// (the epoch itself for a timestamp out of its range).
#[verifier::external_body]
pub fn format_timestamp(timestamp: u64) -> (r: String)
    ensures
        r@ == timestamp_text(timestamp),
{
    let datetime = chrono::DateTime::from_timestamp(timestamp as i64, 0).unwrap_or(
        chrono::DateTime::UNIX_EPOCH,
    );
    datetime.format("%Y-%m-%d %H:%M:%S UTC").to_string()
}

/// Hexadecimal double SHA-256 of the UTF-8 bytes of `s`.
pub open spec fn dsha_hex(s: Seq<char>) -> Seq<char> {
    hex_lower(double_sha256_spec(vstd::utf8::encode_utf8(s)))
}

/// What a header's hash covers: its fields separated by `|`.
pub open spec fn header_fields(h: BlockHeader) -> Seq<char> {
    decimal(h.version as nat) + "|"@ + h.prev_hash@ + "|"@ + h.merkle_root@ + "|"@ + decimal(
        h.timestamp as nat,
    ) + "|"@ + decimal(h.difficulty as nat) + "|"@ + decimal(h.nonce as nat)
}

pub open spec fn header_digest(h: BlockHeader) -> Seq<char> {
    dsha_hex(header_fields(h))
}

/// The digest `h` would have with nonce `n`.
pub open spec fn digest_at(h: BlockHeader, n: u64) -> Seq<char> {
    header_digest(BlockHeader { nonce: n, ..h })
}

pub open spec fn tx_hashes(txs: Seq<Transaction>) -> Seq<Seq<char>> {
    txs.map_values(|t: Transaction| t.hash@)
}

/// The Merkle root of the transactions: 64 zeros when there are none.
pub open spec fn merkle_of(txs: Seq<Transaction>) -> Seq<char> {
    if txs.len() == 0 {
        repeat_char('0', 64)
    } else {
        merkle_reduce(tx_hashes(txs))
    }
}

/// A block is sound when its hash is its header's, meets its difficulty, and
/// its Merkle root matches its transactions.
pub open spec fn block_sound(b: Block) -> bool {
    &&& b.hash@ == header_digest(b.header)
    &&& meets_difficulty(b.hash@, b.header.difficulty as nat)
    &&& b.header.merkle_root@ == merkle_of(b.transactions@)
}

/// Hexadecimal double SHA-256 of a string.
pub fn double_sha256(data: &str) -> (r: String)
    ensures
        r@ == dsha_hex(data@),
{
    let h = double_sha256_bytes(data.as_bytes());
    hex_encode(h.as_slice())
}

/// Hexadecimal SHA-256 of a string.
pub fn sha256(data: &str) -> (r: String)
    ensures
        r@ == sha256_hex_spec(data@),
{
    sha256_hex(data)
}

/// The hash of a block header.
pub fn calculate_hash(header: &BlockHeader) -> (r: String)
    ensures
        r@ == header_digest(*header),
{
    let mut data = String::new();
    push_decimal(&mut data, header.version as u64);
    push_char(&mut data, '|');
    push_str(&mut data, header.prev_hash.as_str());
    push_char(&mut data, '|');
    push_str(&mut data, header.merkle_root.as_str());
    push_char(&mut data, '|');
    push_decimal(&mut data, header.timestamp);
    push_char(&mut data, '|');
    push_decimal(&mut data, header.difficulty as u64);
    push_char(&mut data, '|');
    push_decimal(&mut data, header.nonce);
    proof {
        reveal_strlit("|");
    }
    assert(data@ =~= header_fields(*header));
    double_sha256(data.as_str())
}

/// The Merkle root of a list of transactions.
pub fn calculate_merkle_root(transactions: &[Transaction]) -> (r: String)
    ensures
        r@ == merkle_of(transactions@),
{
    if transactions.len() == 0 {
        return repeat('0', 64);
    }
    let mut hashes: Vec<String> = Vec::new();
    let mut i: usize = 0;
    while i < transactions.len()
        invariant
            i <= transactions@.len(),
            hashes@.len() == i,
            forall|k: int| 0 <= k < i ==> (#[trigger] hashes@[k])@ == transactions@[k].hash@,
        decreases transactions@.len() - i,
    {
        hashes.push(transactions[i].hash.clone());
        i = i + 1;
    }
    assert(str_views(hashes@) =~= tx_hashes(transactions@));
    merkle_of_hashes(hashes)
}

impl BlockHeader {
    /// A header stamped with the current time and nonce 0.
    pub fn new(version: u32, prev_hash: String, merkle_root: String, difficulty: u32) -> (r: Self)
        ensures
            r.version == version,
            r.prev_hash@ == prev_hash@,
            r.merkle_root@ == merkle_root@,
            r.difficulty == difficulty,
            r.nonce == 0,
    {
        BlockHeader {
            version,
            prev_hash,
            merkle_root,
            timestamp: current_timestamp(),
            difficulty,
            nonce: 0,
        }
    }
}

/// What a transaction's hash covers.
pub open spec fn tx_fields(from: Seq<char>, to: Seq<char>, amount: u64, fee: u64, ts: u64) -> Seq<char> {
    from + to + decimal(amount as nat) + decimal(fee as nat) + decimal(ts as nat)
}

impl Transaction {
    /// An unsigned transfer stamped with the current time.
    pub fn new(from: String, to: String, amount: u64, fee: u64) -> (r: Self)
        ensures
            r.from@ == from@,
            r.to@ == to@,
            r.amount == amount,
            r.fee == fee,
            r.hash@ == dsha_hex(tx_fields(from@, to@, amount, fee, r.timestamp)),
            r.signature@.len() == 0,
    {
        Self::new_at(from, to, amount, fee, current_timestamp())
    }

    /// An unsigned transfer stamped with `timestamp`.
    pub fn new_at(from: String, to: String, amount: u64, fee: u64, timestamp: u64) -> (r: Self)
        ensures
            r.from@ == from@,
            r.to@ == to@,
            r.amount == amount,
            r.fee == fee,
            r.timestamp == timestamp,
            r.hash@ == dsha_hex(tx_fields(from@, to@, amount, fee, timestamp)),
            r.signature@.len() == 0,
    {
        let mut data = String::new();
        push_str(&mut data, from.as_str());
        push_str(&mut data, to.as_str());
        push_decimal(&mut data, amount);
        push_decimal(&mut data, fee);
        push_decimal(&mut data, timestamp);
        assert(data@ =~= tx_fields(from@, to@, amount, fee, timestamp));
        let hash = double_sha256(data.as_str());
        Transaction { hash, from, to, amount, fee, timestamp, signature: Vec::new() }
    }

    /// Attaches the placeholder signature `[1, 2, 3, 4, 5]`.
    pub fn sign(&mut self, _private_key: &[u8])
        ensures
            final(self).signature@ == seq![1u8, 2, 3, 4, 5],
            final(self).hash == old(self).hash,
            final(self).from == old(self).from,
            final(self).to == old(self).to,
            final(self).amount == old(self).amount,
            final(self).fee == old(self).fee,
            final(self).timestamp == old(self).timestamp,
    {
        let mut sig = Vec::new();
        sig.push(1u8);
        sig.push(2u8);
        sig.push(3u8);
        sig.push(4u8);
        sig.push(5u8);
        self.signature = sig;
    }
}

impl Block {
    /// A version-1 block stamped with the current time, with its Merkle
    /// root and (unmined) hash.
    pub fn new(height: u64, prev_hash: String, transactions: Vec<Transaction>, difficulty: u32) -> (r:
        Self)
        ensures
            r.height == height,
            r.header.version == 1,
            r.header.prev_hash@ == prev_hash@,
            r.header.difficulty == difficulty,
            r.header.nonce == 0,
            r.header.merkle_root@ == merkle_of(transactions@),
            r.transactions@ == transactions@,
            r.hash@ == header_digest(r.header),
    {
        let merkle_root = calculate_merkle_root(transactions.as_slice());
        let header = BlockHeader::new(1, prev_hash, merkle_root, difficulty);
        let hash = calculate_hash(&header);
        Block { header, height, hash, transactions }
    }

    /// The genesis block: a 50-coin issuance to `YR1GenesisReceiverAddress`
    /// and, when given, a transaction carrying `message`. Its nonce search
    /// starts at Bitcoin's genesis nonce, so that the block meets its
    /// difficulty of one leading zero.
    pub fn create_genesis(message: Option<&str>) -> (r: Self)
        ensures
            r.height == 0,
            r.header.prev_hash@ == repeat_char('0', 64),
            r.header.timestamp == 1704067200,
            r.header.difficulty == 1,
            r.header.nonce >= 2083236893,
            r.header.version == 1,
            r.transactions@.len() == if message is Some {
                2int
            } else {
                1int
            },
            r.transactions@[0].amount == 50_0000_0000,
            r.transactions@[0].to@ == "YR1GenesisReceiverAddress"@,
            r.transactions@[0].from@ == repeat_char('0', 40),
            message matches Some(m) ==> r.transactions@[1].hash@ == dsha_hex(m@)
                && r.transactions@[1].signature@ == m.spec_bytes() && r.transactions@[1].to@
                == "MESSAGE_STORAGE"@,
            r.header.merkle_root@ == merkle_of(r.transactions@),
            r.hash@ == header_digest(r.header),
            block_sound(r) || forall|n: u64|
                2083236893 <= n ==> !meets_difficulty(#[trigger] digest_at(r.header, n), 1),
    {
        let genesis_tx = Transaction {
            hash: "genesis_tx_hash".to_owned(),
            from: repeat('0', 40),
            to: "YR1GenesisReceiverAddress".to_owned(),
            amount: 50_0000_0000,
            fee: 0,
            timestamp: 1704067200,
            signature: Vec::new(),
        };
        let mut transactions = Vec::new();
        transactions.push(genesis_tx);
        match message {
            Some(msg) => {
                let msg_tx = Transaction {
                    hash: double_sha256(msg),
                    from: repeat('0', 40),
                    to: "MESSAGE_STORAGE".to_owned(),
                    amount: 0,
                    fee: 0,
                    timestamp: 1704067200,
                    signature: crate::bytes::to_vec(msg.as_bytes()),
                };
                transactions.push(msg_tx);
            },
            None => {},
        }
        let merkle_root = calculate_merkle_root(transactions.as_slice());
        let header = BlockHeader {
            version: 1,
            prev_hash: repeat('0', 64),
            merkle_root,
            timestamp: 1704067200,
            difficulty: 1,
            nonce: 2083236893,
        };
        let hash = calculate_hash(&header);
        let mut block = Block { header, height: 0, hash, transactions };
        block.mine();
        proof {
            let hd = block.header;
            if !block_sound(block) {
                assert(hd.nonce == u64::MAX);
                assert(BlockHeader { nonce: hd.nonce, ..hd } == hd);
                assert forall|n: u64| 2083236893 <= n implies !meets_difficulty(#[trigger] digest_at(hd, n), 1) by {
                    if n == u64::MAX {
                        assert(digest_at(hd, n) == header_digest(hd));
                    }
                }
            }
        }
        block
    }

    /// Searches nonces upward until the hash starts with `difficulty` zeros
    /// and returns it; the search stops at the largest nonce.
    pub fn mine(&mut self) -> (r: String)
        ensures
            final(self).height == old(self).height,
            final(self).transactions == old(self).transactions,
            final(self).header.version == old(self).header.version,
            final(self).header.prev_hash == old(self).header.prev_hash,
            final(self).header.merkle_root == old(self).header.merkle_root,
            final(self).header.timestamp == old(self).header.timestamp,
            final(self).header.difficulty == old(self).header.difficulty,
            final(self).header.nonce >= old(self).header.nonce,
            final(self).hash@ == header_digest(final(self).header),
            r@ == final(self).hash@,
            meets_difficulty(r@, old(self).header.difficulty as nat) || final(self).header.nonce
                == u64::MAX,
            forall|n: u64|
                old(self).header.nonce <= n < final(self).header.nonce ==> !meets_difficulty(
                    #[trigger] digest_at(final(self).header, n),
                    old(self).header.difficulty as nat,
                ),
    {
        let target = repeat('0', self.header.difficulty as usize);
        let ghost n0 = self.header.nonce;
        loop
            invariant_except_break
                n0 == old(self).header.nonce,
                forall|n: u64|
                    n0 <= n < self.header.nonce ==> !meets_difficulty(
                        #[trigger] digest_at(self.header, n),
                        old(self).header.difficulty as nat,
                    ),
                self.height == old(self).height,
                self.transactions == old(self).transactions,
                self.header.version == old(self).header.version,
                self.header.prev_hash == old(self).header.prev_hash,
                self.header.merkle_root == old(self).header.merkle_root,
                self.header.timestamp == old(self).header.timestamp,
                self.header.difficulty == old(self).header.difficulty,
                self.header.nonce >= old(self).header.nonce,
                target@ == repeat_char('0', old(self).header.difficulty as nat),
            ensures
                self.height == old(self).height,
                self.transactions == old(self).transactions,
                self.header.version == old(self).header.version,
                self.header.prev_hash == old(self).header.prev_hash,
                self.header.merkle_root == old(self).header.merkle_root,
                self.header.timestamp == old(self).header.timestamp,
                self.header.difficulty == old(self).header.difficulty,
                self.header.nonce >= old(self).header.nonce,
                self.hash@ == header_digest(self.header),
                meets_difficulty(self.hash@, old(self).header.difficulty as nat)
                    || self.header.nonce == u64::MAX,
                forall|n: u64|
                    n0 <= n < self.header.nonce ==> !meets_difficulty(
                        #[trigger] digest_at(self.header, n),
                        old(self).header.difficulty as nat,
                    ),
            decreases u64::MAX - self.header.nonce,
        {
            self.hash = calculate_hash(&self.header);
            if starts_with(self.hash.as_str(), target.as_str()) {
                break;
            }
            if self.header.nonce == u64::MAX {
                break;
            }
            let ghost h0 = self.header;
            assert(BlockHeader { nonce: h0.nonce, ..h0 } == h0);
            self.header.nonce = self.header.nonce + 1;
            proof {
                assert forall|n: u64|
                    n0 <= n < self.header.nonce implies !meets_difficulty(
                    #[trigger] digest_at(self.header, n),
                    old(self).header.difficulty as nat,
                ) by {
                    assert(BlockHeader { nonce: n, ..self.header } == BlockHeader { nonce: n, ..h0 });
                    assert(digest_at(self.header, n) == digest_at(h0, n));
                    if n == h0.nonce {
                        assert(digest_at(h0, n) == header_digest(h0));
                    }
                }
            }
        }
        self.hash.clone()
    }

    /// Whether the block is sound (see `block_sound`).
    pub fn verify(&self) -> (r: bool)
        ensures
            r == block_sound(*self),
    {
        let calculated = calculate_hash(&self.header);
        if !str_eq(calculated.as_str(), self.hash.as_str()) {
            return false;
        }
        let target = repeat('0', self.header.difficulty as usize);
        if !starts_with(self.hash.as_str(), target.as_str()) {
            return false;
        }
        let root = calculate_merkle_root(self.transactions.as_slice());
        str_eq(root.as_str(), self.header.merkle_root.as_str())
    }

    /// `Block #<height>, Hash: <first 16 characters>, Tx: <count>, Time: <date>`.
    pub fn summary(&self) -> (r: String)
        requires
            self.hash@.len() >= 16,
            forall|i: int| 0 <= i < 16 ==> (#[trigger] self.hash@[i]) < '\u{80}',
        ensures
            r@ == "Block #"@ + decimal(self.height as nat) + ", Hash: "@ + self.hash@.take(16)
                + ", Tx: "@ + decimal(self.transactions@.len() as nat) + ", Time: "@ + timestamp_text(
                self.header.timestamp,
            ),
    {
        let mut s = String::new();
        push_str(&mut s, "Block #");
        push_decimal(&mut s, self.height);
        push_str(&mut s, ", Hash: ");
        let head = prefix(self.hash.as_str(), 16);
        push_str(&mut s, head.as_str());
        push_str(&mut s, ", Tx: ");
        push_decimal(&mut s, self.transactions.len() as u64);
        push_str(&mut s, ", Time: ");
        let t = format_timestamp(self.header.timestamp);
        push_str(&mut s, t.as_str());
        s
    }
}

/// Every block after the first is sound and links to its predecessor's hash.
pub open spec fn chain_sound(blocks: Seq<Block>) -> bool {
    forall|i: int|
        1 <= i < blocks.len() ==> block_sound(#[trigger] blocks[i]) && blocks[i].header.prev_hash@
            == blocks[i - 1].hash@
}

impl Blockchain {
    /// A chain holding the genesis block with its greeting message.
    pub fn new(difficulty: u32) -> (r: Self)
        ensures
            r.blocks@.len() == 1,
            r.blocks@[0].height == 0,
            r.blocks@[0].transactions@.len() == 2,
            r.blocks@[0].hash@ == header_digest(r.blocks@[0].header),
            r.difficulty == difficulty,
    {
        let genesis = Block::create_genesis(Some("YRUST Chain Genesis Block - 2024"));
        let mut blocks = Vec::new();
        blocks.push(genesis);
        Blockchain { blocks, difficulty }
    }

    pub fn latest_block(&self) -> (r: &Block)
        requires
            self.blocks@.len() >= 1,
        ensures
            *r == self.blocks@.last(),
    {
        &self.blocks[self.blocks.len() - 1]
    }

    pub fn height(&self) -> (r: u64)
        requires
            self.blocks@.len() >= 1,
        ensures
            r == self.blocks@.len() - 1,
    {
        (self.blocks.len() as u64) - 1
    }

    /// Mines a block of `transactions` on the last block and appends it
    /// once it is sound; a block whose nonce search ran out is not appended.
    pub fn add_block(&mut self, transactions: Vec<Transaction>)
        requires
            old(self).blocks@.len() >= 1,
            old(self).blocks@.last().height < u64::MAX,
        ensures
            final(self).difficulty == old(self).difficulty,
            final(self).blocks@.len() == old(self).blocks@.len() || (final(self).blocks@.len()
                == old(self).blocks@.len() + 1 && final(self).blocks@.drop_last() == old(self).blocks@
                && block_sound(final(self).blocks@.last()) && final(self).blocks@.last().height
                == old(self).blocks@.last().height + 1 && final(self).blocks@.last().header.prev_hash@
                == old(self).blocks@.last().hash@ && final(self).blocks@.last().transactions@
                == transactions@ && final(self).blocks@.last().header.difficulty == old(
                self,
            ).difficulty),
            final(self).blocks@.len() == old(self).blocks@.len() ==> final(self).blocks == old(
                self,
            ).blocks,
            // a block is left out only when no nonce at all meets the difficulty
            final(self).blocks@.len() == old(self).blocks@.len() ==> exists|h: BlockHeader|
                #![trigger header_digest(h)]
                h.prev_hash@ == old(self).blocks@.last().hash@ && h.merkle_root@ == merkle_of(transactions@)
                    && h.difficulty == old(self).difficulty && h.version == 1 && forall|n: u64|
                    !meets_difficulty(#[trigger] digest_at(h, n), old(self).difficulty as nat),
    {
        let ghost txs = transactions@;
        let prev_block = self.latest_block();
        let mut new_block = Block::new(
            prev_block.height + 1,
            prev_block.hash.clone(),
            transactions,
            self.difficulty,
        );
        new_block.mine();
        if new_block.verify() {
            self.blocks.push(new_block);
        } else {
            proof {
                let h = new_block.header;
                assert(h.merkle_root@ == merkle_of(txs));
                assert(!meets_difficulty(header_digest(h), self.difficulty as nat));
                assert(BlockHeader { nonce: h.nonce, ..h } == h);
                assert forall|n: u64| !meets_difficulty(#[trigger] digest_at(h, n), self.difficulty as nat) by {
                    if n == u64::MAX {
                        assert(digest_at(h, n) == header_digest(h));
                    }
                }
                assert(header_digest(h) == header_digest(h));
            }
        }
    }

    /// Whether every block after the first is sound and linked.
    pub fn verify(&self) -> (r: bool)
        ensures
            r == chain_sound(self.blocks@),
    {
        let mut i: usize = 1;
        while i < self.blocks.len()
            invariant
                1 <= i,
                forall|j: int|
                    1 <= j < i && j < self.blocks@.len() ==> block_sound(#[trigger] self.blocks@[j])
                        && self.blocks@[j].header.prev_hash@ == self.blocks@[j - 1].hash@,
            decreases self.blocks@.len() - i,
        {
            let current = &self.blocks[i];
            let previous = &self.blocks[i - 1];
            if !current.verify() {
                return false;
            }
            if !str_eq(current.header.prev_hash.as_str(), previous.hash.as_str()) {
                return false;
            }
            i = i + 1;
        }
        true
    }
}

} // verus!
