//! The messages and the address book of a peer-to-peer node.
use vstd::prelude::*;

use crate::network::consensus::fresh_uuid;
use crate::text::{push_decimal, push_str, decimal};

verus! {

/// A block as announced between nodes.
#[derive(Debug, Clone)]
pub struct Block {
    pub height: u64,
    pub hash: String,
}

/// A transaction as announced between nodes.
#[derive(Debug, Clone)]
pub struct Transaction {
    pub id: String,
    pub from: String,
    pub to: String,
    pub amount: u64,
}

/// What nodes send each other.
#[derive(Debug, Clone)]
pub enum NetworkMessage {
    NewBlock(Block),
    NewTransaction(Transaction),
    /// Blocks from the given height on.
    GetBlocks(u64),
    Blocks(Vec<Block>),
    Ping,
    Pong,
}

/// A node: its identifier, where it listens and the peers it knows.
pub struct P2PNode {
    pub node_id: String,
    pub listen_addr: String,
    pub peers: Vec<String>,
}

/// The multiaddress of a node listening on TCP `port` on every interface.
pub open spec fn listen_addr_of(port: u16) -> Seq<char> {
    "/ip4/0.0.0.0/tcp/"@ + decimal(port as nat)
}

impl P2PNode {
    /// A node named `node_<fresh uuid>`, listening on `port`, with no peers.
    pub fn new(port: u16) -> (r: Self)
        ensures
            r.node_id@.take(5) == "node_"@,
            r.listen_addr@ == listen_addr_of(port),
            r.peers@.len() == 0,
    {
        let mut node_id = String::new();
        proof {
            reveal_strlit("node_");
        }
        push_str(&mut node_id, "node_");
        let id = fresh_uuid();
        push_str(&mut node_id, id.as_str());
        assert(node_id@.take(5) =~= "node_"@);
        let mut listen_addr = String::new();
        push_str(&mut listen_addr, "/ip4/0.0.0.0/tcp/");
        push_decimal(&mut listen_addr, port as u64);
        P2PNode { node_id, listen_addr, peers: Vec::new() }
    }

    /// Adds `addr` to the known peers; always succeeds.
    pub fn connect(&mut self, addr: &str) -> (r: Result<(), String>)
        ensures
            r is Ok,
            final(self).peers@.len() == old(self).peers@.len() + 1,
            forall|i: int| 0 <= i < old(self).peers@.len() ==> #[trigger] final(self).peers@[i] == old(self).peers@[i],
            final(self).peers@.last()@ == addr@,
            final(self).node_id == old(self).node_id,
            final(self).listen_addr == old(self).listen_addr,
    {
        self.peers.push(addr.to_owned());
        Ok(())
    }
}

} // verus!
