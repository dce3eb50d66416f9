//! Settings of a gossip network node.
use vstd::prelude::*;

verus! {

/// The port to listen on (0 for any) and the nodes to contact first.
pub struct NetworkConfig {
    pub port: u16,
    pub bootstrap_nodes: Vec<String>,
}

impl Default for NetworkConfig {
    /// Any port, no bootstrap nodes.
    fn default() -> (r: Self)
        ensures
            r.port == 0,
            r.bootstrap_nodes@.len() == 0,
    {
        NetworkConfig { port: 0, bootstrap_nodes: Vec::new() }
    }
}

} // verus!
