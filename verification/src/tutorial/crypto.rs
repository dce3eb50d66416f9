//! Cryptographic building blocks of the chain: SHA-256 digests, Merkle trees,
//! Base58 and the checksummed `YR` addresses.
use vstd::prelude::*;
use vstd::string::StringSliceAdditionalSpecFns;
use crate::crypto::{sha256_hex, sha256_hex_spec, sha256_spec, double_sha256_spec};
use crate::text::{push_str, push_char, hex_lower, str_eq};

verus! {

/// Lower-case hexadecimal SHA-256 of the UTF-8 bytes of `data` (64 characters).
pub fn sha256(data: &str) -> (r: String)
    ensures
        r@ == sha256_hex_spec(data@),
        r@.len() == 64,
{
    sha256_hex(data)
}

/// SHA-256 of a byte string.
pub fn sha256_bytes(data: &[u8]) -> (r: [u8; 32])
    ensures
        r@ == sha256_spec(data@),
{
    let result = crate::crypto::sha256(data);
    let mut hash = [0u8; 32];
    let mut i: usize = 0;
    while i < 32
        invariant
            i <= 32,
            result@.len() == 32,
            hash@.len() == 32,
            forall|k: int| 0 <= k < i ==> hash@[k] == result@[k],
        decreases 32 - i,
    {
        hash[i] = result[i];
        i = i + 1;
    }
    assert(hash@ =~= result@);
    hash
}

/// Hexadecimal SHA-256 of the hexadecimal SHA-256 of `data`.
pub fn double_sha256(data: &str) -> (r: String)
    ensures
        r@ == sha256_hex_spec(sha256_hex_spec(data@)),
{
    let first = sha256(data);
    sha256(first.as_str())
}

/// SHA-256 applied twice to a byte string.
pub fn double_sha256_bytes(data: &[u8]) -> (r: [u8; 32])
    ensures
        r@ == double_sha256_spec(data@),
{
    let first = sha256_bytes(data);
    sha256_bytes(&first)
}

// ---------------------------------------------------------------------------
// Merkle trees
// ---------------------------------------------------------------------------

/// A node of a Merkle tree: a leaf holds a data hash, a parent the hash of
/// its two children's hashes joined.
pub struct MerkleNode {
    pub hash: String,
    pub left: Option<Box<MerkleNode>>,
    pub right: Option<Box<MerkleNode>>,
    pub is_leaf: bool,
}

/// The mathematical content of a node: the same shape with hashes as text.
pub struct MerkleNodeView {
    pub hash: Seq<char>,
    pub left: Option<Box<MerkleNodeView>>,
    pub right: Option<Box<MerkleNodeView>>,
    pub is_leaf: bool,
}

/// The view of a node.
pub open spec fn node_view(n: MerkleNode) -> MerkleNodeView
    decreases n,
{
    MerkleNodeView {
        hash: n.hash@,
        left: match n.left {
            Some(b) => Some(Box::new(node_view(*b))),
            None => None,
        },
        right: match n.right {
            Some(b) => Some(Box::new(node_view(*b))),
            None => None,
        },
        is_leaf: n.is_leaf,
    }
}

/// The leaf holding `h`.
pub open spec fn leaf_view(h: Seq<char>) -> MerkleNodeView {
    MerkleNodeView { hash: h, left: None, right: None, is_leaf: true }
}

/// The parent of `l` and `r`: the SHA-256 of their hashes joined.
pub open spec fn parent_view(l: MerkleNodeView, r: MerkleNodeView) -> MerkleNodeView {
    MerkleNodeView {
        hash: sha256_hex_spec(l.hash + r.hash),
        left: Some(Box::new(l)),
        right: Some(Box::new(r)),
        is_leaf: false,
    }
}

/// A level with its last node repeated when it has an odd length.
pub open spec fn padded_level(s: Seq<MerkleNodeView>) -> Seq<MerkleNodeView> {
    if s.len() % 2 == 1 {
        s.push(s.last())
    } else {
        s
    }
}

/// The next level up: the parents of consecutive pairs of the padded level.
pub open spec fn level_up(s: Seq<MerkleNodeView>) -> Seq<MerkleNodeView> {
    let p = padded_level(s);
    Seq::new(p.len() / 2, |i: int| parent_view(p[2 * i], p[2 * i + 1]))
}

/// The root reached by building levels until one node is left.
pub open spec fn tree_root(s: Seq<MerkleNodeView>) -> MerkleNodeView
    decreases s.len(),
{
    if s.len() <= 1 {
        s[0]
    } else {
        tree_root(level_up(s))
    }
}

/// The leaves over a list of hashes.
pub open spec fn leaves_of(hashes: Seq<Seq<char>>) -> Seq<MerkleNodeView> {
    hashes.map_values(|h: Seq<char>| leaf_view(h))
}

/// The views of a list of nodes.
pub open spec fn views_of(nodes: Seq<MerkleNode>) -> Seq<MerkleNodeView> {
    nodes.map_values(|n: MerkleNode| node_view(n))
}

/// The hash a Merkle proof leads to: the data's hash, rehashed with each
/// sibling appended in turn.
pub open spec fn proof_fold(h: Seq<char>, proof: Seq<Seq<char>>) -> Seq<char>
    decreases proof.len(),
{
    if proof.len() == 0 {
        h
    } else {
        sha256_hex_spec(proof_fold(h, proof.drop_last()) + proof.last())
    }
}

/// `2` to the power `d`.
pub open spec fn two_pow(d: nat) -> nat
    decreases d,
{
    if d == 0 {
        1
    } else {
        2 * two_pow((d - 1) as nat)
    }
}

/// The number of levels above the leaves in a tree over `n` leaves: each
/// level halves the count, rounding up.
pub open spec fn tree_depth(n: nat) -> nat
    decreases n,
{
    if n <= 1 {
        0
    } else {
        1 + tree_depth(((n + 1) / 2) as nat)
    }
}

/// The sibling hashes on the way from the leaf at `i` up to node `t`, `d`
/// levels above the leaves, the lowest first: at each level the path turns
/// left for an index in the first half of the `2^d` positions, right
/// otherwise, and the other child's hash is recorded.
pub open spec fn proof_path(t: MerkleNodeView, d: nat, i: nat) -> Seq<Seq<char>>
    decreases d,
{
    if d == 0 {
        Seq::empty()
    } else {
        match t.left {
            Some(l) => match t.right {
                Some(r) => if i < two_pow((d - 1) as nat) {
                    proof_path(*l, (d - 1) as nat, i).push(r.hash)
                } else {
                    proof_path(*r, (d - 1) as nat, (i - two_pow((d - 1) as nat)) as nat).push(l.hash)
                },
                None => Seq::empty(),
            },
            None => Seq::empty(),
        }
    }
}

proof fn lemma_two_pow_mono(a: nat, b: nat)
    requires
        a <= b,
    ensures
        two_pow(a) <= two_pow(b),
        two_pow(a) >= 1,
    decreases b,
{
    if b > 0 {
        if a < b {
            lemma_two_pow_mono(a, (b - 1) as nat);
        } else {
            lemma_two_pow_mono((a - 1) as nat, (b - 1) as nat);
        }
    }
}

proof fn lemma_depth_pow(n: nat)
    requires
        n >= 2,
    ensures
        tree_depth(n) >= 1,
        two_pow((tree_depth(n) - 1) as nat) < n,
    decreases n,
{
    let m = ((n + 1) / 2) as nat;
    assert(tree_depth(n) == 1 + tree_depth(m));
    if m >= 2 {
        lemma_depth_pow(m);
        let dm = tree_depth(m);
        assert(two_pow(dm) == 2 * two_pow((dm - 1) as nat));
        assert(2 * m <= n + 1);
        assert(two_pow((tree_depth(n) - 1) as nat) == two_pow(dm));
    } else {
        assert(m == 1);
        assert(tree_depth(m) == 0);
        assert(two_pow(0) == 1);
    }
}

/// The sibling hashes from the leaf at `i` up to `node` (see `proof_path`).
fn path_of(node: &MerkleNode, d: usize, i: usize, half: usize) -> (r: Vec<String>)
    requires
        d > 0 ==> half as nat == two_pow((d - 1) as nat),
    ensures
        r@.map_values(|x: String| x@) == proof_path(node_view(*node), d as nat, i as nat),
    decreases d,
{
    if d == 0 {
        let v: Vec<String> = Vec::new();
        assert(v@.map_values(|x: String| x@) =~= Seq::<Seq<char>>::empty());
        return v;
    }
    let next_half = half / 2;
    proof {
        if d > 1 {
            assert(two_pow((d - 1) as nat) == 2 * two_pow((d - 2) as nat));
        }
    }
    match &node.left {
        Some(l) => match &node.right {
            Some(rt) => {
                if i < half {
                    let mut v = path_of(l, d - 1, i, next_half);
                    let ghost before = v@.map_values(|x: String| x@);
                    let h = rt.hash.clone();
                    v.push(h);
                    assert(v@.map_values(|x: String| x@) =~= before.push(rt.hash@));
                    v
                } else {
                    let mut v = path_of(rt, d - 1, i - half, next_half);
                    let ghost before = v@.map_values(|x: String| x@);
                    let h = l.hash.clone();
                    v.push(h);
                    assert(v@.map_values(|x: String| x@) =~= before.push(l.hash@));
                    v
                }
            },
            None => {
                let v: Vec<String> = Vec::new();
                assert(v@.map_values(|x: String| x@) =~= Seq::<Seq<char>>::empty());
                v
            },
        },
        None => {
            let v: Vec<String> = Vec::new();
            assert(v@.map_values(|x: String| x@) =~= Seq::<Seq<char>>::empty());
            v
        },
    }
}

impl MerkleNode {
    /// A leaf holding `data_hash`.
    pub fn new_leaf(data_hash: String) -> (r: Self)
        ensures
            node_view(r) == leaf_view(data_hash@),
    {
        MerkleNode { hash: data_hash, left: None, right: None, is_leaf: true }
    }

    /// The parent of `left` and `right`.
    pub fn new_parent(left: MerkleNode, right: MerkleNode) -> (r: Self)
        ensures
            node_view(r) == parent_view(node_view(left), node_view(right)),
    {
        let mut combined = left.hash.clone();
        push_str(&mut combined, right.hash.as_str());
        let hash = sha256(combined.as_str());
        MerkleNode { hash, left: Some(Box::new(left)), right: Some(Box::new(right)), is_leaf: false }
    }

    /// A deep copy.
    pub fn duplicate(&self) -> (r: Self)
        ensures
            node_view(r) == node_view(*self),
        decreases self,
    {
        let left = match &self.left {
            Some(b) => Some(Box::new(b.duplicate())),
            None => None,
        };
        let right = match &self.right {
            Some(b) => Some(Box::new(b.duplicate())),
            None => None,
        };
        MerkleNode { hash: self.hash.clone(), left, right, is_leaf: self.is_leaf }
    }
}

/// A Merkle tree over a list of data items.
pub struct MerkleTree {
    pub root: Option<MerkleNode>,
    pub leaf_count: usize,
}

/// Builds the levels of a tree from its leaves up to the root.
fn build_tree(leaves: Vec<MerkleNode>) -> (r: MerkleNode)
    requires
        leaves@.len() >= 1,
    ensures
        node_view(r) == tree_root(views_of(leaves@)),
{
    let mut nodes = leaves;
    let ghost start = views_of(nodes@);
    while nodes.len() > 1
        invariant
            nodes@.len() >= 1,
            tree_root(views_of(nodes@)) == tree_root(start),
        decreases nodes@.len(),
    {
        let ghost level = views_of(nodes@);
        if nodes.len() % 2 == 1 {
            let last = nodes[nodes.len() - 1].duplicate();
            nodes.push(last);
        }
        let ghost p = views_of(nodes@);
        assert(p =~= padded_level(level));
        let ghost half = nodes@.len() / 2;
        let mut rest = nodes;
        let mut next: Vec<MerkleNode> = Vec::new();
        while rest.len() >= 2
            invariant
                p.len() == 2 * half,
                rest@.len() + 2 * next@.len() == p.len(),
                rest@.len() % 2 == 0,
                views_of(rest@) == p.subrange(2 * next@.len() as int, p.len() as int),
                forall|k: int| 0 <= k < next@.len() ==> node_view(#[trigger] next@[k])
                    == parent_view(p[2 * k], p[2 * k + 1]),
            decreases rest@.len(),
        {
            let ghost j = next@.len() as int;
            assert(views_of(rest@)[0] == p[2 * j]);
            assert(views_of(rest@)[1] == p[2 * j + 1]);
            let ghost before = rest@;
            let a = rest.remove(0);
            let b = rest.remove(0);
            assert forall|k: int| 0 <= k < rest@.len() implies #[trigger] views_of(rest@)[k]
                == p.subrange(2 * (j + 1), p.len() as int)[k] by {
                assert(rest@[k] == before[k + 2]);
                assert(views_of(before)[k + 2] == p.subrange(2 * j, p.len() as int)[k + 2]);
            }
            assert(views_of(rest@) =~= p.subrange(2 * (j + 1), p.len() as int));
            next.push(MerkleNode::new_parent(a, b));
        }
        assert(views_of(next@) =~= level_up(level));
        nodes = next;
    }
    nodes.remove(0)
}

impl MerkleTree {
    /// The tree over the hashes of `data`; no root when `data` is empty.
    pub fn from_data(data: &[String]) -> (r: Self)
        ensures
            r.leaf_count == data@.len(),
            data@.len() == 0 ==> r.root is None,
            data@.len() > 0 ==> (r.root matches Some(n) && node_view(n) == tree_root(
                leaves_of(data@.map_values(|d: String| sha256_hex_spec(d@))),
            )),
    {
        if data.len() == 0 {
            return MerkleTree { root: None, leaf_count: 0 };
        }
        let mut nodes: Vec<MerkleNode> = Vec::new();
        let mut i: usize = 0;
        while i < data.len()
            invariant
                i <= data@.len(),
                nodes@.len() == i,
                forall|k: int| 0 <= k < i ==> node_view(#[trigger] nodes@[k]) == leaf_view(
                    sha256_hex_spec(data@[k]@),
                ),
            decreases data@.len() - i,
        {
            nodes.push(MerkleNode::new_leaf(sha256(data[i].as_str())));
            i = i + 1;
        }
        assert(views_of(nodes@) =~= leaves_of(data@.map_values(|d: String| sha256_hex_spec(d@))));
        MerkleTree { root: Some(build_tree(nodes)), leaf_count: data.len() }
    }

    /// The tree over the given leaf hashes; no root when there are none.
    pub fn from_hashes(hashes: &[String]) -> (r: Self)
        ensures
            r.leaf_count == hashes@.len(),
            hashes@.len() == 0 ==> r.root is None,
            hashes@.len() > 0 ==> (r.root matches Some(n) && node_view(n) == tree_root(
                leaves_of(hashes@.map_values(|h: String| h@)),
            )),
    {
        if hashes.len() == 0 {
            return MerkleTree { root: None, leaf_count: 0 };
        }
        let mut nodes: Vec<MerkleNode> = Vec::new();
        let mut i: usize = 0;
        while i < hashes.len()
            invariant
                i <= hashes@.len(),
                nodes@.len() == i,
                forall|k: int| 0 <= k < i ==> node_view(#[trigger] nodes@[k]) == leaf_view(
                    hashes@[k]@,
                ),
            decreases hashes@.len() - i,
        {
            nodes.push(MerkleNode::new_leaf(hashes[i].clone()));
            i = i + 1;
        }
        assert(views_of(nodes@) =~= leaves_of(hashes@.map_values(|h: String| h@)));
        MerkleTree { root: Some(build_tree(nodes)), leaf_count: hashes.len() }
    }

    /// The root hash, if the tree has a root.
    pub fn root_hash(&self) -> (r: Option<String>)
        ensures
            self.root is None ==> r is None,
            self.root matches Some(n) ==> r matches Some(h) && h@ == n.hash@,
    {
        match &self.root {
            Some(n) => Some(n.hash.clone()),
            None => None,
        }
    }

    /// The proof path of the item at `index`: the hashes of the siblings on
    /// the way from its leaf up to the root, the leaf's sibling first (see
    /// `proof_path`); empty for a tree without root or an index past the leaves.
    pub fn get_proof(&self, index: usize) -> (r: Vec<String>)
        ensures
            self.root is None || index >= self.leaf_count ==> r@.len() == 0,
            self.root is Some && index < self.leaf_count ==> r@.map_values(|x: String| x@) == proof_path(
                node_view(self.root.unwrap()),
                tree_depth(self.leaf_count as nat),
                index as nat,
            ),
    {
        let root = match &self.root {
            Some(n) => n,
            None => {
                return Vec::new();
            },
        };
        if index >= self.leaf_count {
            return Vec::new();
        }
        let n = self.leaf_count;
        let mut d: usize = 0;
        let mut m: usize = n;
        while m > 1
            invariant
                m >= 1,
                d + m <= n,
                tree_depth(n as nat) == d + tree_depth(m as nat),
            decreases m,
        {
            m = m / 2 + m % 2;
            d = d + 1;
        }
        let mut half: usize = 1;
        if d > 0 {
            proof {
                lemma_depth_pow(n as nat);
            }
            let mut k: usize = 0;
            while k + 1 < d
                invariant
                    k + 1 <= d,
                    half as nat == two_pow(k as nat),
                    two_pow((d - 1) as nat) < n,
                    tree_depth(n as nat) == d,
                decreases d - k,
            {
                proof {
                    lemma_two_pow_mono((k + 1) as nat, (d - 1) as nat);
                }
                half = half * 2;
                k = k + 1;
            }
        }
        path_of(root, d, index, half)
    }

    /// Whether rehashing `data` with each sibling of `proof` appended in turn
    /// reaches `root`.
    pub fn verify(data: &str, proof: &[String], root: &str) -> (r: bool)
        ensures
            r == (proof_fold(sha256_hex_spec(data@), proof@.map_values(|s: String| s@)) == root@),
    {
        let ghost steps = proof@.map_values(|s: String| s@);
        let mut current_hash = sha256(data);
        let mut i: usize = 0;
        while i < proof.len()
            invariant
                i <= proof@.len(),
                steps == proof@.map_values(|s: String| s@),
                current_hash@ == proof_fold(sha256_hex_spec(data@), steps.take(i as int)),
            decreases proof@.len() - i,
        {
            let mut combined = current_hash.clone();
            push_str(&mut combined, proof[i].as_str());
            current_hash = sha256(combined.as_str());
            i = i + 1;
            assert(steps.take(i as int).drop_last() =~= steps.take(i - 1));
        }
        assert(steps.take(i as int) =~= steps);
        str_eq(current_hash.as_str(), root)
    }
}


// ---------------------------------------------------------------------------
// Big-endian numbers (arithmetic by `num-bigint`)
// ---------------------------------------------------------------------------

/// The number a big-endian byte string stands for.
pub open spec fn be_value(s: Seq<u8>) -> nat
    decreases s.len(),
{
    if s.len() == 0 {
        0
    } else {
        (be_value(s.drop_last()) * 256 + s.last()) as nat
    }
}

/// The shortest big-endian bytes of `n`; zero is one zero byte.
pub open spec fn be_bytes(n: nat) -> Seq<u8>
    decreases n,
{
    if n < 256 {
        seq![n as u8]
    } else {
        be_bytes(n / 256).push((n % 256) as u8)
    }
}

/// `num_bigint::BigInt::from_bytes_be`, division by `d`, `to_bytes_be`: the
/// shortest big-endian bytes of the quotient.
#[verifier::external_body]
fn big_div(num: &[u8], d: u32) -> (r: Vec<u8>)
    requires
        d > 0,
    ensures
        r@ == be_bytes(be_value(num@) / (d as nat)),
{
    let n = num_bigint::BigInt::from_bytes_be(num_bigint::Sign::Plus, num);
    (n / num_bigint::BigInt::from(d)).to_bytes_be().1
}

/// `num_bigint::BigInt::from_bytes_be`, remainder by `d`, `to_u32_digits`:
/// no digit for a zero remainder, else the remainder alone.
#[verifier::external_body]
fn big_rem_digits(num: &[u8], d: u32) -> (r: Vec<u32>)
    requires
        d > 0,
    ensures
        be_value(num@) % (d as nat) == 0 ==> r@ == Seq::<u32>::empty(),
        be_value(num@) % (d as nat) != 0 ==> r@ == seq![(be_value(num@) % (d as nat)) as u32],
{
    let n = num_bigint::BigInt::from_bytes_be(num_bigint::Sign::Plus, num);
    (n % num_bigint::BigInt::from(d)).to_u32_digits().1
}

/// `num_bigint::BigInt::from_bytes_be`, multiplication by `m`, `to_bytes_be`.
#[verifier::external_body]
fn big_mul(num: &[u8], m: u32) -> (r: Vec<u8>)
    ensures
        r@ == be_bytes(be_value(num@) * (m as nat)),
{
    let n = num_bigint::BigInt::from_bytes_be(num_bigint::Sign::Plus, num);
    (n * num_bigint::BigInt::from(m)).to_bytes_be().1
}

/// `num_bigint::BigInt::from_bytes_be`, addition of `a`, `to_bytes_be`.
#[verifier::external_body]
fn big_add(num: &[u8], a: u32) -> (r: Vec<u8>)
    ensures
        r@ == be_bytes(be_value(num@) + (a as nat)),
{
    let n = num_bigint::BigInt::from_bytes_be(num_bigint::Sign::Plus, num);
    (n + num_bigint::BigInt::from(a)).to_bytes_be().1
}

proof fn lemma_be_value_zero(s: Seq<u8>)
    requires
        forall|i: int| 0 <= i < s.len() ==> s[i] == 0,
    ensures
        be_value(s) == 0,
    decreases s.len(),
{
    if s.len() > 0 {
        assert forall|i: int| 0 <= i < s.drop_last().len() implies s.drop_last()[i] == 0 by {
            assert(s.drop_last()[i] == s[i]);
        }
        lemma_be_value_zero(s.drop_last());
    }
}

proof fn lemma_be_value_pos(s: Seq<u8>, i: int)
    requires
        0 <= i < s.len(),
        s[i] != 0,
    ensures
        be_value(s) > 0,
    decreases s.len(),
{
    if i < s.len() - 1 {
        assert(s.drop_last()[i] == s[i]);
        lemma_be_value_pos(s.drop_last(), i);
        assert(be_value(s.drop_last()) * 256 >= 256) by (nonlinear_arith)
            requires
                be_value(s.drop_last()) > 0,
        ;
    }
}

/// Whether the number is above zero.
fn bytes_positive(b: &[u8]) -> (r: bool)
    ensures
        r == (be_value(b@) > 0),
{
    let mut i: usize = 0;
    while i < b.len()
        invariant
            i <= b@.len(),
            forall|k: int| 0 <= k < i ==> b@[k] == 0,
        decreases b@.len() - i,
    {
        if b[i] != 0 {
            proof {
                lemma_be_value_pos(b@, i as int);
            }
            return true;
        }
        i = i + 1;
    }
    proof {
        lemma_be_value_zero(b@);
    }
    false
}

// ---------------------------------------------------------------------------
// Base58
// ---------------------------------------------------------------------------

/// Digit `d` of the Base58 alphabet `1-9`, `A-H`, `J-N`, `P-Z`, `a-k`, `m-z`
/// (no `0`, `O`, `I` or `l`).
pub open spec fn b58_char_spec(d: int) -> char {
    if d < 9 {
        (d + 49) as char
    } else if d < 17 {
        (d - 9 + 65) as char
    } else if d < 22 {
        (d - 17 + 74) as char
    } else if d < 33 {
        (d - 22 + 80) as char
    } else if d < 44 {
        (d - 33 + 97) as char
    } else {
        (d - 44 + 109) as char
    }
}

/// The Base58 alphabet.
pub open spec fn b58_alphabet() -> Seq<char> {
    Seq::new(58, |d: int| b58_char_spec(d))
}

/// Base58 digits of `v`, most significant first; empty for zero.
pub open spec fn b58_digits(v: nat) -> Seq<char>
    decreases v,
{
    if v == 0 {
        Seq::empty()
    } else {
        b58_digits(v / 58).push(b58_alphabet()[(v % 58) as int])
    }
}

/// The number of leading zero bytes.
pub open spec fn leading_zeros(s: Seq<u8>) -> nat
    decreases s.len(),
{
    if s.len() == 0 || s[0] != 0 {
        0
    } else {
        1 + leading_zeros(s.subrange(1, s.len() as int))
    }
}

/// The number of leading `1` characters.
pub open spec fn leading_ones(s: Seq<char>) -> nat
    decreases s.len(),
{
    if s.len() == 0 || s[0] != '1' {
        0
    } else {
        1 + leading_ones(s.subrange(1, s.len() as int))
    }
}

/// Base58 text of `data`: a `1` per leading zero byte, then the digits of its value.
pub open spec fn base58_text(data: Seq<u8>) -> Seq<char> {
    crate::text::repeat_char('1', leading_zeros(data)) + b58_digits(be_value(data))
}

/// The digit of a character: the position in the alphabet of the byte
/// `ch as u8` (its code truncated to a byte); `None` outside the alphabet.
pub open spec fn b58_index(c: char) -> Option<nat> {
    let x = (c as nat) % 256;
    if 49 <= x <= 57 {
        Some((x - 49) as nat)
    } else if 65 <= x <= 72 {
        Some((x - 65 + 9) as nat)
    } else if 74 <= x <= 78 {
        Some((x - 74 + 17) as nat)
    } else if 80 <= x <= 90 {
        Some((x - 80 + 22) as nat)
    } else if 97 <= x <= 107 {
        Some((x - 97 + 33) as nat)
    } else if 109 <= x <= 122 {
        Some((x - 109 + 44) as nat)
    } else {
        None
    }
}

/// The number the characters stand for as Base58 digits, read left to
/// right (`1` is the digit 0); `None` on a character outside the alphabet.
pub open spec fn b58_value(s: Seq<char>) -> Option<nat>
    decreases s.len(),
{
    if s.len() == 0 {
        Some(0)
    } else {
        match b58_value(s.drop_last()) {
            None => None,
            Some(v) => match b58_index(s.last()) {
                Some(i) => Some(v * 58 + i),
                None => None,
            },
        }
    }
}

/// Decoded bytes: a zero byte per leading `1`, then the shortest bytes of
/// the value (none for a zero value).
pub open spec fn base58_decoded(s: Seq<char>) -> Result<Seq<u8>, Seq<char>> {
    match b58_value(s) {
        Some(v) => Ok(Seq::new(leading_ones(s), |i: int| 0u8) + (if v == 0 {
            Seq::<u8>::empty()
        } else {
            be_bytes(v)
        })),
        None => Err("Invalid Base58 character"@),
    }
}

/// The characters in reverse order.
pub open spec fn reversed(s: Seq<char>) -> Seq<char> {
    Seq::new(s.len(), |i: int| s[s.len() - 1 - i])
}

/// Digits of `v`, least significant first.
pub open spec fn b58_digits_rev(v: nat) -> Seq<char>
    decreases v,
{
    if v == 0 {
        Seq::empty()
    } else {
        seq![b58_alphabet()[(v % 58) as int]] + b58_digits_rev(v / 58)
    }
}

proof fn lemma_digits_rev(v: nat)
    ensures
        reversed(b58_digits_rev(v)) == b58_digits(v),
    decreases v,
{
    if v > 0 {
        lemma_digits_rev(v / 58);
        let t = b58_digits_rev(v / 58);
        let c = b58_alphabet()[(v % 58) as int];
        assert(reversed(seq![c] + t) =~= reversed(t).push(c));
    }
}

proof fn lemma_leading_zeros_prefix(s: Seq<u8>, i: nat)
    requires
        i <= s.len(),
        forall|k: int| 0 <= k < i ==> s[k] == 0,
        i < s.len() ==> s[i as int] != 0,
    ensures
        leading_zeros(s) == i,
    decreases i,
{
    if i > 0 {
        let t = s.subrange(1, s.len() as int);
        assert forall|k: int| 0 <= k < i - 1 implies t[k] == 0 by {
            assert(t[k] == s[k + 1]);
        }
        if i - 1 < t.len() {
            assert(t[i - 1] == s[i as int]);
        }
        lemma_leading_zeros_prefix(t, (i - 1) as nat);
    }
}

proof fn lemma_leading_ones_prefix(s: Seq<char>, i: nat)
    requires
        i <= s.len(),
        forall|k: int| 0 <= k < i ==> s[k] == '1',
        i < s.len() ==> s[i as int] != '1',
    ensures
        leading_ones(s) == i,
    decreases i,
{
    if i > 0 {
        let t = s.subrange(1, s.len() as int);
        assert forall|k: int| 0 <= k < i - 1 implies t[k] == '1' by {
            assert(t[k] == s[k + 1]);
        }
        if i - 1 < t.len() {
            assert(t[i - 1] == s[i as int]);
        }
        lemma_leading_ones_prefix(t, (i - 1) as nat);
    }
}

/// The character of digit `d` of the alphabet.
fn b58_char(d: u32) -> (c: char)
    requires
        d < 58,
    ensures
        c == b58_alphabet()[d as int],
{
    let code: u8 = if d < 9 {
        (d + 49) as u8
    } else if d < 17 {
        (d - 9 + 65) as u8
    } else if d < 22 {
        (d - 17 + 74) as u8
    } else if d < 33 {
        (d - 22 + 80) as u8
    } else if d < 44 {
        (d - 33 + 97) as u8
    } else {
        (d - 44 + 109) as u8
    };
    code as char
}

/// Base58 encoding of `data` (`base58_text`): a `1` per leading zero byte,
/// then the digits of its value.
pub fn base58_encode(data: &[u8]) -> (r: String)
    ensures
        r@ == base58_text(data@),
{
    let mut zeros: usize = 0;
    while zeros < data.len() && data[zeros] == 0
        invariant
            zeros <= data@.len(),
            forall|k: int| 0 <= k < zeros ==> data@[k] == 0,
        decreases data@.len() - zeros,
    {
        zeros = zeros + 1;
    }
    proof {
        lemma_leading_zeros_prefix(data@, zeros as nat);
    }
    let ghost v0 = be_value(data@);
    let mut num = crate::bytes::to_vec(data);
    let mut digits = String::new();
    while bytes_positive(num.as_slice())
        invariant
            digits@ + b58_digits_rev(be_value(num@)) == b58_digits_rev(v0),
        decreases be_value(num@),
    {
        let ghost v = be_value(num@);
        let rem = big_rem_digits(num.as_slice(), 58);
        // a zero remainder has no `u32` digit: it is the digit 0
        let idx: u32 = if rem.len() == 0 { 0 } else { rem[0] };
        push_char(&mut digits, b58_char(idx));
        num = big_div(num.as_slice(), 58);
        proof {
            lemma_be_bytes_value(v / 58);
            assert(digits@ + b58_digits_rev(v / 58) =~= (digits@.drop_last()) + b58_digits_rev(v));
        }
    }
    proof {
        assert(digits@ =~= b58_digits_rev(v0));
    }
    let mut out = String::new();
    let mut i: usize = 0;
    while i < zeros
        invariant
            i <= zeros,
            out@ == crate::text::repeat_char('1', i as nat),
        decreases zeros - i,
    {
        push_char(&mut out, '1');
        i = i + 1;
        assert(out@ =~= crate::text::repeat_char('1', i as nat));
    }
    let cs = crate::text::chars_of(digits.as_str());
    let mut j: usize = cs.len();
    let ghost ones = out@;
    while j > 0
        invariant
            j <= cs@.len(),
            cs@ == b58_digits_rev(v0),
            out@ == ones + reversed(cs@).take(cs@.len() - j),
        decreases j,
    {
        j = j - 1;
        push_char(&mut out, cs[j]);
        assert(out@ =~= ones + reversed(cs@).take(cs@.len() - j));
    }
    proof {
        lemma_digits_rev(v0);
        assert(reversed(cs@).take(cs@.len() as int) =~= reversed(cs@));
    }
    out
}

proof fn lemma_be_bytes_value(n: nat)
    ensures
        be_value(be_bytes(n)) == n,
    decreases n,
{
    if n >= 256 {
        lemma_be_bytes_value(n / 256);
        assert(be_bytes(n).drop_last() =~= be_bytes(n / 256));
        assert(be_bytes(n).last() == (n % 256) as u8);
        assert((n / 256) * 256 + n % 256 == n);
    } else {
        assert(be_bytes(n).drop_last() =~= Seq::<u8>::empty());
        assert(be_value(Seq::<u8>::empty()) == 0);
    }
}


/// The digit of `c` (`b58_index`): the first position in the alphabet
/// whose byte is `c as u8`.
fn b58_lookup(c: char) -> (r: Option<u32>)
    ensures
        r matches Some(k) ==> b58_index(c) == Some(k as nat),
        r is None ==> b58_index(c) is None,
{
    let code: u32 = (c as u32) % 256;
    let mut k: u32 = 0;
    while k < 58
        invariant
            k <= 58,
            code as nat == (c as nat) % 256,
            forall|j: int| 0 <= j < k ==> b58_alphabet()[j] as nat != code,
        decreases 58 - k,
    {
        if b58_char(k) as u32 == code {
            proof {
                lemma_b58_index_of_digit(k as int);
            }
            return Some(k);
        }
        k = k + 1;
    }
    proof {
        if let Some(d) = b58_index(c) {
            lemma_b58_index_of_digit(d as int);
            assert(b58_alphabet()[d as int] as nat == code);
        }
    }
    None
}

proof fn lemma_b58_none_prefix(s: Seq<char>, i: int)
    requires
        0 <= i <= s.len(),
        b58_value(s.take(i)) is None,
    ensures
        b58_value(s) is None,
    decreases s.len() - i,
{
    if i < s.len() {
        assert(s.take(i + 1).drop_last() =~= s.take(i));
        lemma_b58_none_prefix(s, i + 1);
    } else {
        assert(s.take(i) =~= s);
    }
}

/// Base58 decoding (`base58_decoded`): leading `1`s are zero bytes, the
/// characters are read as digits (`1` being 0); an unknown character is an
/// error.
pub fn base58_decode(s: &str) -> (r: Result<Vec<u8>, String>)
    ensures
        match base58_decoded(s@) {
            Ok(b) => r matches Ok(v) && v@ == b,
            Err(m) => r matches Err(e) && e@ == m,
        },
{
    let cs = crate::text::chars_of(s);
    let mut ones: usize = 0;
    while ones < cs.len() && cs[ones] == '1'
        invariant
            ones <= cs@.len(),
            forall|k: int| 0 <= k < ones ==> cs@[k] == '1',
        decreases cs@.len() - ones,
    {
        ones = ones + 1;
    }
    proof {
        lemma_leading_ones_prefix(cs@, ones as nat);
    }
    let mut value: Vec<u8> = Vec::new();
    value.push(0u8);
    proof {
        assert(value@ =~= be_bytes(0));
        lemma_be_bytes_value(0);
        assert(cs@.take(0) =~= Seq::<char>::empty());
    }
    let mut i: usize = 0;
    while i < cs.len()
        invariant
            i <= cs@.len(),
            cs@ == s@,
            b58_value(cs@.take(i as int)) == Some(be_value(value@)),
            value@ == be_bytes(be_value(value@)),
        decreases cs@.len() - i,
    {
        let ch = cs[i];
        let ghost v = be_value(value@);
        proof {
            assert(cs@.take(i + 1).drop_last() =~= cs@.take(i as int));
            assert(cs@.take(i + 1).last() == ch);
        }
        match b58_lookup(ch) {
            Some(idx) => {
                let m = big_mul(value.as_slice(), 58);
                proof {
                    lemma_be_bytes_value(v * 58);
                }
                value = big_add(m.as_slice(), idx);
                proof {
                    lemma_be_bytes_value((v * 58 + idx) as nat);
                    assert(b58_index(ch) == Some(idx as nat));
                    assert(b58_value(cs@.take(i + 1)) == Some((v * 58 + idx) as nat));
                    assert(be_value(value@) == v * 58 + idx);
                }
            },
            None => {
                proof {
                    lemma_b58_none_prefix(cs@, i + 1);
                }
                return Err("Invalid Base58 character".to_string());
            },
        }
        i = i + 1;
    }
    proof {
        assert(cs@.take(i as int) =~= cs@);
    }
    let mut out: Vec<u8> = Vec::new();
    let mut k: usize = 0;
    while k < ones
        invariant
            k <= ones,
            out@ == Seq::new(k as nat, |j: int| 0u8),
        decreases ones - k,
    {
        out.push(0u8);
        k = k + 1;
        assert(out@ =~= Seq::new(k as nat, |j: int| 0u8));
    }
    if !bytes_positive(value.as_slice()) {
        assert(out@ =~= Seq::new(ones as nat, |j: int| 0u8) + Seq::<u8>::empty());
        return Ok(out);
    }
    let mut j: usize = 0;
    let ghost zeros = out@;
    while j < value.len()
        invariant
            j <= value@.len(),
            out@ == zeros + value@.take(j as int),
        decreases value@.len() - j,
    {
        out.push(value[j]);
        j = j + 1;
        assert(out@ =~= zeros + value@.take(j as int));
    }
    assert(value@.take(j as int) =~= value@);
    Ok(out)
}

/// The 25 bytes behind the address of `public_key`: version `0x4D`, the
/// RIPEMD-160 of its SHA-256, then the first four bytes of the double SHA-256
/// of those 21 bytes.
pub open spec fn address_payload(public_key: Seq<u8>) -> Seq<u8> {
    let versioned = seq![0x4Du8] + crate::crypto::ripemd160_spec(sha256_spec(public_key));
    versioned + double_sha256_spec(versioned).take(4)
}

/// The address of `public_key`: `YR` and the Base58 text of its payload.
pub open spec fn address_of(public_key: Seq<u8>) -> Seq<char> {
    "YR"@ + base58_text(address_payload(public_key))
}

/// An address is valid when it starts with `YR` and the rest decodes to 25
/// bytes with version `0x4D` whose last four bytes are the checksum of the first 21.
pub open spec fn address_valid(a: Seq<char>) -> bool {
    &&& crate::text::occurs_at(a, "YR"@, 0)
    &&& base58_decoded(a.subrange(2, a.len() as int)) matches Ok(p)
    &&& p.len() == 25
    &&& p[0] == 0x4Du8
    &&& p.subrange(21, 25) == double_sha256_spec(p.subrange(0, 21)).take(4)
}

/// The address of `public_key` (`address_of`).
pub fn generate_address(public_key: &[u8]) -> (r: String)
    ensures
        r@ == address_of(public_key@),
        address_valid(r@),
{
    let payload = address_bytes(public_key);
    let encoded = base58_encode(payload.as_slice());
    let mut out = String::new();
    proof {
        reveal_strlit("YR");
    }
    push_str(&mut out, "YR");
    push_str(&mut out, encoded.as_str());
    proof {
        let p = payload@;
        assert(p.len() == 25);
        assert(p[0] == 0x4Du8);
        lemma_be_value_pos(p, 0);
        lemma_base58_roundtrip(p);
        assert(out@.subrange(2, out@.len() as int) =~= encoded@);
        assert(out@.subrange(0, 2) =~= "YR"@);
    }
    out
}

/// The payload bytes of the address of `public_key`.
fn address_bytes(public_key: &[u8]) -> (r: Vec<u8>)
    ensures
        r@ == address_payload(public_key@),
        r@.len() == 25,
        r@[0] == 0x4Du8,
        r@.subrange(21, 25) == double_sha256_spec(r@.subrange(0, 21)).take(4),
{
    let sha = crate::crypto::sha256(public_key);
    let rip = crate::crypto::ripemd160(sha.as_slice());
    let mut versioned: Vec<u8> = Vec::new();
    versioned.push(0x4Du8);
    let versioned = crate::bytes::concat(versioned.as_slice(), rip.as_slice());
    let checksum = crate::crypto::double_sha256_bytes(versioned.as_slice());
    let head = crate::bytes::slice_of(checksum.as_slice(), 0, 4);
    assert(head@ =~= double_sha256_spec(versioned@).take(4));
    let r = crate::bytes::concat(versioned.as_slice(), head.as_slice());
    assert(r@.subrange(0, 21) =~= versioned@);
    assert(r@.subrange(21, 25) =~= head@);
    r
}

/// Whether `address` is well formed and its checksum matches (`address_valid`).
pub fn validate_address(address: &str) -> (r: bool)
    ensures
        r == address_valid(address@),
{
    proof {
        reveal_strlit("YR");
    }
    if !crate::text::starts_with(address, "YR") {
        return false;
    }
    let cs = crate::text::chars_of(address);
    let mut rest = String::new();
    let mut i: usize = 2;
    while i < cs.len()
        invariant
            2 <= i <= cs@.len(),
            rest@ == cs@.subrange(2, i as int),
        decreases cs@.len() - i,
    {
        push_char(&mut rest, cs[i]);
        i = i + 1;
        assert(rest@ =~= cs@.subrange(2, i as int));
    }
    let payload = match base58_decode(rest.as_str()) {
        Ok(p) => p,
        Err(_) => {
            return false;
        },
    };
    if payload.len() != 25 {
        return false;
    }
    if payload[0] != 0x4D {
        return false;
    }
    let data = crate::bytes::slice_of(payload.as_slice(), 0, 21);
    let checksum = crate::bytes::slice_of(payload.as_slice(), 21, 25);
    let calculated = crate::crypto::double_sha256_bytes(data.as_slice());
    let head = crate::bytes::slice_of(calculated.as_slice(), 0, 4);
    assert(head@ =~= double_sha256_spec(data@).take(4));
    crate::bytes::bytes_eq(checksum.as_slice(), head.as_slice())
}


// ---------------------------------------------------------------------------
// Decoding undoes encoding
// ---------------------------------------------------------------------------

proof fn lemma_b58_index_of_digit(d: int)
    requires
        0 <= d < 58,
    ensures
        b58_index(b58_alphabet()[d]) == Some(d as nat),
        b58_alphabet()[d] == '1' <==> d == 0,
        b58_alphabet()[d] as nat == (b58_alphabet()[d] as nat) % 256,
{
}

proof fn lemma_digits_decode(v: nat)
    ensures
        b58_value(b58_digits(v)) == Some(v),
        v > 0 ==> b58_digits(v).len() > 0 && b58_digits(v)[0] != '1',
    decreases v,
{
    if v > 0 {
        lemma_digits_decode(v / 58);
        let d = b58_digits(v);
        let c = b58_alphabet()[(v % 58) as int];
        lemma_b58_index_of_digit((v % 58) as int);
        assert(d.drop_last() =~= b58_digits(v / 58));
        assert(d.last() == c);
        assert((v / 58) * 58 + v % 58 == v);
        if v / 58 == 0 {
            assert(b58_digits(0) =~= Seq::<char>::empty());
            assert(d[0] == c);
        } else {
            assert(d[0] == b58_digits(v / 58)[0]);
        }
    }
}

proof fn lemma_skip_ones(n: nat, d: Seq<char>)
    ensures
        b58_value(crate::text::repeat_char('1', n) + d) == b58_value(d),
    decreases d.len(), n,
{
    let ones = crate::text::repeat_char('1', n);
    if d.len() == 0 {
        assert(ones + d =~= ones);
        if n > 0 {
            lemma_skip_ones((n - 1) as nat, d);
            assert(ones.drop_last() =~= crate::text::repeat_char('1', (n - 1) as nat));
            assert(ones.last() == '1');
            assert(crate::text::repeat_char('1', (n - 1) as nat) + d =~= crate::text::repeat_char(
                '1',
                (n - 1) as nat,
            ));
        } else {
            assert(ones =~= Seq::<char>::empty());
        }
    } else {
        lemma_skip_ones(n, d.drop_last());
        assert((ones + d).drop_last() =~= ones + d.drop_last());
        assert((ones + d).last() == d.last());
    }
}

proof fn lemma_leading_ones_of(n: nat, d: Seq<char>)
    requires
        d.len() == 0 || d[0] != '1',
    ensures
        leading_ones(crate::text::repeat_char('1', n) + d) == n,
{
    let t = crate::text::repeat_char('1', n) + d;
    assert forall|k: int| 0 <= k < n implies t[k] == '1' by {
        assert(crate::text::repeat_char('1', n)[k] == '1');
    }
    if n < t.len() {
        assert(t[n as int] == d[0]);
    }
    lemma_leading_ones_prefix(t, n);
}

proof fn lemma_be_minimal(p: Seq<u8>)
    requires
        p.len() > 0,
        p[0] != 0,
    ensures
        be_bytes(be_value(p)) == p,
    decreases p.len(),
{
    if p.len() == 1 {
        assert(p.drop_last() =~= Seq::<u8>::empty());
        assert(be_value(Seq::<u8>::empty()) == 0);
        assert(be_value(p) == p[0] as nat);
        assert(be_bytes(be_value(p)) =~= p);
    } else {
        let q = p.drop_last();
        assert(q[0] == p[0]);
        lemma_be_minimal(q);
        lemma_be_value_pos(q, 0);
        let v = be_value(p);
        assert(v == be_value(q) * 256 + p.last());
        assert(v / 256 == be_value(q) && v % 256 == p.last() as nat) by (nonlinear_arith)
            requires
                v == be_value(q) * 256 + p.last(),
                p.last() < 256,
        ;
        assert(v >= 256) by (nonlinear_arith)
            requires
                v == be_value(q) * 256 + p.last(),
                be_value(q) > 0,
        ;
        assert(be_bytes(v) =~= p);
    }
}

proof fn lemma_be_value_skip_zeros(p: Seq<u8>, n: nat)
    requires
        n <= p.len(),
        forall|k: int| 0 <= k < n ==> p[k] == 0,
    ensures
        be_value(p.subrange(n as int, p.len() as int)) == be_value(p),
    decreases p.len(),
{
    if p.len() > n {
        let q = p.drop_last();
        lemma_be_value_skip_zeros(q, n);
        assert(p.subrange(n as int, p.len() as int).drop_last() =~= q.subrange(n as int, q.len() as int));
    } else {
        assert(p.subrange(n as int, p.len() as int) =~= Seq::<u8>::empty());
        lemma_be_value_zero(p);
    }
}

proof fn lemma_leading_zeros_facts(p: Seq<u8>)
    ensures
        leading_zeros(p) <= p.len(),
        forall|k: int| 0 <= k < leading_zeros(p) ==> p[k] == 0,
        leading_zeros(p) < p.len() ==> p[leading_zeros(p) as int] != 0,
    decreases p.len(),
{
    if p.len() > 0 && p[0] == 0 {
        let t = p.subrange(1, p.len() as int);
        lemma_leading_zeros_facts(t);
        assert forall|k: int| 0 <= k < leading_zeros(p) implies p[k] == 0 by {
            if k > 0 {
                assert(p[k] == t[k - 1]);
            }
        }
        if leading_zeros(p) < p.len() {
            assert(p[leading_zeros(p) as int] == t[leading_zeros(t) as int]);
        }
    }
}

/// Decoding gives back the bytes that were encoded, for every byte string.
pub proof fn lemma_base58_roundtrip(p: Seq<u8>)
    ensures
        base58_decoded(base58_text(p)) == Ok::<Seq<u8>, Seq<char>>(p),
{
    let v = be_value(p);
    let n = leading_zeros(p);
    lemma_leading_zeros_facts(p);
    lemma_digits_decode(v);
    lemma_skip_ones(n, b58_digits(v));
    lemma_leading_ones_of(n, b58_digits(v));
    if n == p.len() {
        lemma_be_value_zero(p);
        assert(b58_digits(0) =~= Seq::<char>::empty());
        assert(Seq::new(n, |i: int| 0u8) + Seq::<u8>::empty() =~= p);
    } else {
        let rest = p.subrange(n as int, p.len() as int);
        lemma_be_value_skip_zeros(p, n);
        assert(rest[0] == p[n as int]);
        lemma_be_value_pos(rest, 0);
        lemma_be_minimal(rest);
        assert(Seq::new(n, |i: int| 0u8) + rest =~= p);
    }
}

} // verus!
