//! Messages between nodes and their framing on a stream: a 4-byte
//! big-endian length, then the encoded message.
use vstd::prelude::*;
use crate::chain::types::{Block, Transaction};
use crate::text::push_str;

pub mod consensus;
pub mod p2p;

verus! {

/// What nodes send each other.
pub enum NetworkMessage {
    Handshake { version: String, node_id: String },
    HandshakeAck { height: u64, best_hash: String },
    NewBlock(Block),
    NewTransaction(Transaction),
    GetBlocks { start_height: u64, end_height: u64 },
    BlocksResponse(Vec<Block>),
    GetBestBlockHash,
    BestBlockHashResponse(String),
    PeerList(Vec<String>),
    Ping,
    Pong,
}

/// Where a node listens and whom it contacts first.
pub struct NodeConfig {
    pub port: u16,
    pub bootstrap_nodes: Vec<String>,
}

impl Default for NodeConfig {
    fn default() -> (r: Self)
        ensures
            r.port == 0,
            r.bootstrap_nodes@.len() == 0,
    {
        NodeConfig { port: 0, bootstrap_nodes: Vec::new() }
    }
}

/// Why a network operation failed.
pub enum NetworkError {
    ConnectionError(String),
    SerializationError(String),
    InvalidMessage,
}

/// The message of each error.
pub open spec fn network_error_text(e: NetworkError) -> Seq<char> {
    match e {
        NetworkError::ConnectionError(m) => "连接错误: "@ + m@,
        NetworkError::SerializationError(m) => "序列化错误: "@ + m@,
        NetworkError::InvalidMessage => "无效的消息"@,
    }
}

impl NetworkError {
    /// The message shown for the error.
    pub fn message(&self) -> (r: String)
        ensures
            r@ == network_error_text(*self),
    {
        let mut s = String::new();
        match self {
            NetworkError::ConnectionError(m) => {
                push_str(&mut s, "连接错误: ");
                push_str(&mut s, m.as_str());
            },
            NetworkError::SerializationError(m) => {
                push_str(&mut s, "序列化错误: ");
                push_str(&mut s, m.as_str());
            },
            NetworkError::InvalidMessage => push_str(&mut s, "无效的消息"),
        }
        s
    }
}

/// The four big-endian bytes of `n`.
pub open spec fn be32(n: u32) -> Seq<u8> {
    seq![(n / 0x100_0000) as u8, ((n / 0x1_0000) % 0x100) as u8, ((n / 0x100) % 0x100) as u8, (n % 0x100) as u8]
}

/// A frame: the payload's length (truncated to 32 bits) in big-endian order, then the payload.
pub open spec fn frame_of(payload: Seq<u8>) -> Seq<u8> {
    be32(payload.len() as u32) + payload
}

/// The frame carrying `payload`.
pub fn encode_frame(payload: &[u8]) -> (r: Vec<u8>)
    ensures
        r@ == frame_of(payload@),
{
    let len: u32 = payload.len() as u32;
    let mut out: Vec<u8> = Vec::new();
    out.push((len / 0x100_0000) as u8);
    out.push(((len / 0x1_0000) % 0x100) as u8);
    out.push(((len / 0x100) % 0x100) as u8);
    out.push((len % 0x100) as u8);
    let mut i: usize = 0;
    while i < payload.len()
        invariant
            i <= payload@.len(),
            out@ == be32(len) + payload@.take(i as int),
        decreases payload@.len() - i,
    {
        out.push(payload[i]);
        i = i + 1;
        assert(out@ =~= be32(len) + payload@.take(i as int));
    }
    assert(payload@.take(i as int) =~= payload@);
    out
}

/// The payload length announced by a frame header.
pub fn frame_length(header: [u8; 4]) -> (r: usize)
    ensures
        r == header@[0] * 0x100_0000 + header@[1] * 0x1_0000 + header@[2] * 0x100 + header@[3],
{
    let n: u32 = header[0] as u32 * 0x100_0000 + header[1] as u32 * 0x1_0000 + header[2] as u32 * 0x100 + header[3] as u32;
    n as usize
}

/// Reading a frame's header gives back the length it was written with.
pub proof fn lemma_frame_length(n: u32)
    ensures
        be32(n)[0] * 0x100_0000 + be32(n)[1] * 0x1_0000 + be32(n)[2] * 0x100 + be32(n)[3] == n,
{
    assert(((n / 0x100_0000) as u8) as int * 0x100_0000 + (((n / 0x1_0000) % 0x100) as u8) as int * 0x1_0000
        + (((n / 0x100) % 0x100) as u8) as int * 0x100 + ((n % 0x100) as u8) as int == n) by (nonlinear_arith);
}

} // verus!
