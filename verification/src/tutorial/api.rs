//! A request router over a small fixed chain: block listing, block lookup by
//! height, statistics and transaction submission.
use vstd::prelude::*;
use crate::keymap::KeyMap;
use crate::text::{str_debug, debug_str, push_str, push_decimal, decimal, str_eq, starts_with, occurs_at, after_last, last_segment, parse_u64, parse_u64_spec};
use crate::chain::types::{joined, lemma_joined_step};

verus! {

/// A request.
#[derive(Debug)]
pub struct Request {
    pub method: String,
    pub path: String,
    pub body: Option<String>,
}

/// A response.
#[derive(Debug)]
pub struct Response {
    pub status: u16,
    pub body: String,
}

impl Response {
    pub fn ok(body: String) -> (r: Self)
        ensures
            r.status == 200,
            r.body == body,
    {
        Response { status: 200, body }
    }

    pub fn not_found() -> (r: Self)
        ensures
            r.status == 404,
            r.body@ == "Not Found"@,
    {
        Response { status: 404, body: "Not Found".to_string() }
    }

    pub fn error(msg: String) -> (r: Self)
        ensures
            r.status == 500,
            r.body == msg,
    {
        Response { status: 500, body: msg }
    }
}

/// A block as the router lists it.
#[derive(Debug, Clone)]
pub struct Block {
    pub height: u64,
    pub hash: String,
    pub tx_count: usize,
}

/// What `{:?}` writes for a block.
pub open spec fn block_debug(b: Block) -> Seq<char> {
    "Block { height: "@ + decimal(b.height as nat) + ", hash: "@ + str_debug(b.hash@) + ", tx_count: "@
        + decimal(b.tx_count as nat) + " }"@
}

/// What `{:?}` writes for a list of blocks.
pub open spec fn blocks_debug(bs: Seq<Block>) -> Seq<char> {
    "["@ + joined(bs.map_values(|b: Block| block_debug(b))) + "]"@
}

/// A chain of three fixed blocks.
#[derive(Debug)]
pub struct MockBlockchain {
    blocks: Vec<Block>,
}

/// Heights, hashes and transaction counts of the fixed blocks.
pub open spec fn fixed_block(i: int) -> (u64, Seq<char>, usize) {
    if i == 0 {
        (0, "genesis"@, 1)
    } else if i == 1 {
        (1, "block1"@, 5)
    } else {
        (2, "block2"@, 3)
    }
}

/// Whether `b` is fixed block `i`.
pub open spec fn is_fixed(b: Block, i: int) -> bool {
    (b.height, b.hash@, b.tx_count) == fixed_block(i)
}

fn make_block(height: u64, hash: &str, tx_count: usize) -> (r: Block)
    ensures
        r.height == height,
        r.hash@ == hash@,
        r.tx_count == tx_count,
{
    Block { height, hash: hash.to_string(), tx_count }
}

fn copy_block(b: &Block) -> (r: Block)
    ensures
        r.height == b.height,
        r.hash@ == b.hash@,
        r.tx_count == b.tx_count,
{
    Block { height: b.height, hash: b.hash.clone(), tx_count: b.tx_count }
}

impl MockBlockchain {
    /// The blocks, as fixed by `new`.
    pub closed spec fn blocks(&self) -> Seq<Block> {
        self.blocks@
    }

    #[verifier::type_invariant]
    closed spec fn holds_fixed_blocks(&self) -> bool {
        &&& self.blocks@.len() == 3
        &&& forall|i: int| 0 <= i < 3 ==> is_fixed(#[trigger] self.blocks@[i], i)
    }

    /// The chain of blocks `genesis` (1 transaction), `block1` (5) and `block2` (3).
    pub fn new() -> (r: Self)
        ensures
            r.blocks().len() == 3,
            forall|i: int| 0 <= i < 3 ==> is_fixed(#[trigger] r.blocks()[i], i),
    {
        proof {
            reveal_strlit("genesis");
            reveal_strlit("block1");
            reveal_strlit("block2");
        }
        let mut blocks: Vec<Block> = Vec::new();
        blocks.push(make_block(0, "genesis", 1));
        blocks.push(make_block(1, "block1", 5));
        blocks.push(make_block(2, "block2", 3));
        MockBlockchain { blocks }
    }

    /// Copies of the blocks.
    pub fn get_blocks(&self) -> (r: Vec<Block>)
        ensures
            r@.len() == 3,
            forall|i: int| 0 <= i < 3 ==> is_fixed(#[trigger] r@[i], i),
    {
        proof {
            use_type_invariant(self);
        }
        let mut out: Vec<Block> = Vec::new();
        let mut i: usize = 0;
        while i < self.blocks.len()
            invariant
                self.blocks@.len() == 3,
                forall|k: int| 0 <= k < 3 ==> is_fixed(#[trigger] self.blocks@[k], k),
                i <= 3,
                out@.len() == i,
                forall|k: int| 0 <= k < i ==> is_fixed(#[trigger] out@[k], k),
            decreases 3 - i,
        {
            let b = copy_block(&self.blocks[i]);
            assert(is_fixed(self.blocks@[i as int], i as int));
            out.push(b);
            i = i + 1;
        }
        out
    }

    /// A copy of the first block at `height`.
    pub fn get_block(&self, height: u64) -> (r: Option<Block>)
        ensures
            height <= 2 ==> (r matches Some(b) && is_fixed(b, height as int)),
            height > 2 ==> r is None,
    {
        proof {
            use_type_invariant(self);
        }
        let mut i: usize = 0;
        while i < self.blocks.len()
            invariant
                self.blocks@.len() == 3,
                forall|k: int| 0 <= k < 3 ==> is_fixed(#[trigger] self.blocks@[k], k),
                i <= 3,
                forall|k: int| 0 <= k < i ==> (#[trigger] self.blocks@[k]).height != height,
                i <= height,
            decreases 3 - i,
        {
            assert(is_fixed(self.blocks@[i as int], i as int));
            if self.blocks[i].height == height {
                return Some(copy_block(&self.blocks[i]));
            }
            i = i + 1;
        }
        None
    }

    /// `height` (the last block's) and `total_tx` (all transactions).
    pub fn get_stats(&self) -> (r: KeyMap<String, u64>)
        ensures
            r@.len() == 2,
            r@ == Map::<Seq<char>, u64>::empty().insert("height"@, 2).insert("total_tx"@, 9),
            r.entries().len() == 2,
            r.entries()[0].0@ == "height"@ && r.entries()[0].1 == 2,
            r.entries()[1].0@ == "total_tx"@ && r.entries()[1].1 == 9,
    {
        proof {
            use_type_invariant(self);
            reveal_strlit("height");
            reveal_strlit("total_tx");
        }
        let mut total: u64 = 0;
        let mut i: usize = 0;
        while i < self.blocks.len()
            invariant
                self.blocks@.len() == 3,
                forall|k: int| 0 <= k < 3 ==> is_fixed(#[trigger] self.blocks@[k], k),
                i <= 3,
                total == (if i == 0 { 0 } else if i == 1 { 1 } else if i == 2 { 6 } else { 9int }),
            decreases 3 - i,
        {
            assert(is_fixed(self.blocks@[i as int], i as int));
            total = total + self.blocks[i].tx_count as u64;
            i = i + 1;
        }
        let mut stats: KeyMap<String, u64> = KeyMap::new();
        stats.insert("height".to_string(), self.blocks.len() as u64 - 1);
        assert("height"@.len() != "total_tx"@.len());
        stats.insert("total_tx".to_string(), total);
        stats
    }
}

/// What `{:?}` writes for the statistics, in the order they were added.
pub open spec fn stats_debug() -> Seq<char> {
    "{"@ + str_debug("height"@) + ": 2, "@ + str_debug("total_tx"@) + ": 9}"@
}

/// What `{:?}` writes for fixed block `i`.
pub open spec fn fixed_block_debug(i: int) -> Seq<char> {
    "Block { height: "@ + decimal(fixed_block(i).0 as nat) + ", hash: "@ + str_debug(fixed_block(i).1)
        + ", tx_count: "@ + decimal(fixed_block(i).2 as nat) + " }"@
}

/// What `{:?}` writes for the list of fixed blocks.
pub open spec fn fixed_blocks_debug() -> Seq<char> {
    "["@ + fixed_block_debug(0) + ", "@ + fixed_block_debug(1) + ", "@ + fixed_block_debug(2) + "]"@
}

/// Status and body of the response to `method` on `path`.
pub open spec fn route(method: Seq<char>, path: Seq<char>) -> (u16, Seq<char>) {
    if method == "GET"@ && path == "/api/blocks"@ {
        (200, "Blocks: "@ + fixed_blocks_debug())
    } else if method == "GET"@ && occurs_at(path, "/api/blocks/"@, 0) {
        let h = match parse_u64_spec(last_segment(path, '/')) {
            Some(v) => v,
            None => 0,
        };
        if h <= 2 {
            (200, "Block: "@ + fixed_block_debug(h as int))
        } else {
            (404, "Not Found"@)
        }
    } else if method == "GET"@ && path == "/api/stats"@ {
        (200, "Stats: "@ + stats_debug())
    } else if method == "POST"@ && path == "/api/tx"@ {
        (200, "Transaction accepted"@)
    } else {
        (404, "Not Found"@)
    }
}

/// The `{:?}` text of a block.
fn block_text(b: &Block) -> (r: String)
    ensures
        r@ == block_debug(*b),
{
    let mut s = String::new();
    proof {
        reveal_strlit("Block { height: ");
        reveal_strlit(", hash: ");
        reveal_strlit(", tx_count: ");
        reveal_strlit(" }");
    }
    push_str(&mut s, "Block { height: ");
    push_decimal(&mut s, b.height);
    push_str(&mut s, ", hash: ");
    let h = debug_str(b.hash.as_str());
    push_str(&mut s, h.as_str());
    push_str(&mut s, ", tx_count: ");
    push_decimal(&mut s, b.tx_count as u64);
    push_str(&mut s, " }");
    s
}

/// The `{:?}` text of a list of blocks.
fn blocks_text(bs: &Vec<Block>) -> (r: String)
    ensures
        r@ == blocks_debug(bs@),
{
    let ghost items = bs@.map_values(|b: Block| block_debug(b));
    let mut inner = String::new();
    let mut i: usize = 0;
    proof {
        reveal_strlit(", ");
        assert(items.take(0) =~= Seq::<Seq<char>>::empty());
    }
    while i < bs.len()
        invariant
            i <= bs@.len(),
            items == bs@.map_values(|b: Block| block_debug(b)),
            inner@ == joined(items.take(i as int)),
        decreases bs@.len() - i,
    {
        proof {
            lemma_joined_step(items, i as int);
        }
        if i > 0 {
            push_str(&mut inner, ", ");
        }
        let t = block_text(&bs[i]);
        push_str(&mut inner, t.as_str());
        i = i + 1;
    }
    assert(items.take(i as int) =~= items);
    let mut s = String::new();
    proof {
        reveal_strlit("[");
        reveal_strlit("]");
    }
    push_str(&mut s, "[");
    push_str(&mut s, inner.as_str());
    push_str(&mut s, "]");
    s
}

/// The router.
pub struct ApiServer {
    blockchain: MockBlockchain,
}

impl ApiServer {
    pub fn new() -> (r: Self) {
        ApiServer { blockchain: MockBlockchain::new() }
    }

    /// Answers `req` (`route`).
    pub fn handle(&self, req: Request) -> (r: Response)
        ensures
            (r.status, r.body@) == route(req.method@, req.path@),
    {
        proof {
            reveal_strlit("GET");
            reveal_strlit("POST");
            reveal_strlit("/api/blocks");
            reveal_strlit("/api/blocks/");
            reveal_strlit("/api/stats");
            reveal_strlit("/api/tx");
            reveal_strlit("Blocks: ");
            reveal_strlit("Block: ");
            reveal_strlit("Stats: ");
            reveal_strlit("Transaction accepted");
            reveal_strlit("Block { height: ");
            reveal_strlit(", hash: ");
            reveal_strlit(", tx_count: ");
            reveal_strlit(" }");
            reveal_strlit("[");
            reveal_strlit("]");
            reveal_strlit(", ");
            reveal_strlit("{");
            reveal_strlit(": 2, ");
            reveal_strlit(": 9}");
            reveal_strlit("height");
            reveal_strlit("total_tx");
            reveal_strlit("genesis");
            reveal_strlit("block1");
            reveal_strlit("block2");
        }
        let method = req.method.as_str();
        let path = req.path.as_str();
        if str_eq(method, "GET") && str_eq(path, "/api/blocks") {
            let blocks = self.blockchain.get_blocks();
            let text = blocks_text(&blocks);
            proof {
                let items = blocks@.map_values(|b: Block| block_debug(b));
                assert(items[0] == fixed_block_debug(0));
                assert(items[1] == fixed_block_debug(1));
                assert(items[2] == fixed_block_debug(2));
                assert(items.drop_last().drop_last() =~= seq![items[0]]);
                assert(items.drop_last() =~= seq![items[0], items[1]]);
                assert(joined(seq![items[0]]) == items[0]);
                assert(joined(seq![items[0], items[1]]) =~= items[0] + ", "@ + items[1]);
                assert(joined(items) =~= items[0] + ", "@ + items[1] + ", "@ + items[2]);
                assert(text@ =~= fixed_blocks_debug());
            }
            let mut body = String::new();
            push_str(&mut body, "Blocks: ");
            push_str(&mut body, text.as_str());
            return Response::ok(body);
        }
        if str_eq(method, "GET") && starts_with(path, "/api/blocks/") {
            let seg = after_last(path, '/');
            let height: u64 = match parse_u64(seg.as_str()) {
                Some(v) => v,
                None => 0,
            };
            return match self.blockchain.get_block(height) {
                Some(block) => {
                    let text = block_text(&block);
                    let mut body = String::new();
                    push_str(&mut body, "Block: ");
                    push_str(&mut body, text.as_str());
                    Response::ok(body)
                },
                None => Response::not_found(),
            };
        }
        if str_eq(method, "GET") && str_eq(path, "/api/stats") {
            let stats = self.blockchain.get_stats();
            let mut body = String::new();
            push_str(&mut body, "Stats: {");
            let n = stats.len();
            let mut i: usize = 0;
            while i < n
                invariant
                    n == stats.entries().len(),
                    n == 2,
                    i <= n,
                    stats.entries()[0].0@ == "height"@ && stats.entries()[0].1 == 2,
                    stats.entries()[1].0@ == "total_tx"@ && stats.entries()[1].1 == 9,
                    body@ == "Stats: {"@ + (if i == 0 {
                        Seq::<char>::empty()
                    } else if i == 1 {
                        str_debug("height"@) + ": "@ + decimal(2)
                    } else {
                        str_debug("height"@) + ": "@ + decimal(2) + ", "@ + str_debug("total_tx"@) + ": "@ + decimal(9)
                    }),
                decreases n - i,
            {
                if i > 0 {
                    push_str(&mut body, ", ");
                }
                let (k, v) = stats.entry_at(i);
                proof {
                    reveal_strlit(": ");
                    reveal_strlit(", ");
                }
                let kt = debug_str(k.as_str());
                push_str(&mut body, kt.as_str());
                push_str(&mut body, ": ");
                push_decimal(&mut body, *v);
                i = i + 1;
            }
            push_str(&mut body, "}");
            proof {
                reveal_strlit(": ");
                assert(decimal(2) =~= seq!['2']) by {
                    reveal_with_fuel(decimal, 2);
                }
                assert(decimal(9) =~= seq!['9']) by {
                    reveal_with_fuel(decimal, 2);
                }
            }
            proof {
                reveal_strlit("Stats: {");
                reveal_strlit("Stats: ");
                reveal_strlit("}");
                assert("Stats: {"@ =~= "Stats: "@ + "{"@);
                assert(": 2, "@ =~= ": "@ + decimal(2) + ", "@);
                assert(": 9}"@ =~= ": "@ + decimal(9) + "}"@);
            }
            assert(body@ =~= "Stats: "@ + stats_debug());
            return Response::ok(body);
        }
        if str_eq(method, "POST") && str_eq(path, "/api/tx") {
            return Response::ok("Transaction accepted".to_string());
        }
        Response::not_found()
    }
}

} // verus!
