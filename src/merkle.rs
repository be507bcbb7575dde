//! Merkle commitments to one party's shares, joint openings, and their
//! check.
//!
//! Each party hashes its own shares into a binary tree. The commitment is
//! the pair of the two roots, the first party's root first. An opening of
//! position `i` carries both parties' shares there and, level by level, both
//! parties' sibling digests.
use crate::field::{fadd, Scalar};
use crate::shared::MpcVal;
use sha2::{Digest, Sha256};
use vstd::prelude::*;

verus! {

/// A SHA-256 digest.
pub type NodeHash = [u8; 32];

/// The pair of roots, the first party's first.
pub type Commitment = (NodeHash, NodeHash);

/// One party's tree: level `l` holds the `n / 2^l` digests of that level,
/// from the leaves up to, not including, the root.
pub type Key = Vec<Vec<NodeHash>>;

/// An opening of one position.
pub struct OpeningProof {
    /// The first party's share at the position.
    pub first_share: Scalar,
    /// The second party's share at the position.
    pub second_share: Scalar,
    /// Per level, from the leaves up: the first and the second party's
    /// sibling digest.
    pub path: Vec<(NodeHash, NodeHash)>,
}

/// A party's tree with its root.
pub struct MerkleTree {
    pub key: Key,
    pub root: NodeHash,
}

/// What SHA-256 gives for `data`.
pub uninterp spec fn sha256_of(data: Seq<u8>) -> Seq<u8>;

/// The digest of a leaf: the hash of the share's encoding.
pub open spec fn leaf_digest(s: Scalar) -> Seq<u8> {
    sha256_of(s.bytes@)
}

/// The digest of an inner node: the hash of its children's digests, left
/// then right.
pub open spec fn node_digest(l: Seq<u8>, r: Seq<u8>) -> Seq<u8> {
    sha256_of(l + r)
}

/// The digests of a sequence of hashes.
pub open spec fn digests(v: Seq<NodeHash>) -> Seq<Seq<u8>> {
    v.map_values(|h: NodeHash| h@)
}

/// `n` is a power of two.
pub open spec fn is_pow2(n: nat) -> bool
    decreases n,
{
    if n <= 1 {
        n == 1
    } else {
        n % 2 == 0 && is_pow2(n / 2)
    }
}

/// The level above `hs`: pairs of neighbours hashed together.
pub open spec fn parents(hs: Seq<Seq<u8>>) -> Seq<Seq<u8>> {
    Seq::new(hs.len() / 2, |j: int| node_digest(hs[2 * j], hs[2 * j + 1]))
}

/// Level `l` of the tree over `hs`.
pub open spec fn tree_level(hs: Seq<Seq<u8>>, l: nat) -> Seq<Seq<u8>>
    decreases l,
{
    if l == 0 {
        hs
    } else {
        parents(tree_level(hs, (l - 1) as nat))
    }
}

/// The root of the tree over `hs`.
pub open spec fn root_of(hs: Seq<Seq<u8>>) -> Seq<u8>
    decreases hs.len(),
{
    if hs.len() <= 1 {
        hs[0]
    } else {
        root_of(parents(hs))
    }
}

/// The number of levels below the root of a tree over `n` leaves.
pub open spec fn depth(n: nat) -> nat
    decreases n,
{
    if n <= 1 {
        0
    } else {
        1 + depth(n / 2)
    }
}

/// The neighbour of position `i` within its pair.
pub open spec fn sibling_index(i: int) -> int {
    if i % 2 == 0 {
        i + 1
    } else {
        i - 1
    }
}

/// The sibling digests from leaf `i` up to the root.
pub open spec fn path_of(hs: Seq<Seq<u8>>, i: int) -> Seq<Seq<u8>>
    decreases hs.len(),
{
    if hs.len() <= 1 {
        seq![]
    } else {
        seq![hs[sibling_index(i)]] + path_of(parents(hs), i / 2)
    }
}

/// The digest reached from `h` at position `i` by hashing in the siblings
/// `sibs` level by level; the low bit of the position says on which side
/// the sibling stands.
pub open spec fn path_root(h: Seq<u8>, sibs: Seq<Seq<u8>>, i: int) -> Seq<u8>
    decreases sibs.len(),
{
    if sibs.len() == 0 {
        h
    } else {
        let up = if i % 2 == 0 {
            node_digest(h, sibs[0])
        } else {
            node_digest(sibs[0], h)
        };
        path_root(up, sibs.drop_first(), i / 2)
    }
}

/// The leaf digests of one party's shares.
pub open spec fn leaves_of(vs: Seq<MpcVal<Scalar>>) -> Seq<Seq<u8>> {
    vs.map_values(|v: MpcVal<Scalar>| leaf_digest(v.val))
}

/// The first and the second party's sibling digests of a path.
pub open spec fn path_firsts(p: Seq<(NodeHash, NodeHash)>) -> Seq<Seq<u8>> {
    p.map_values(|s: (NodeHash, NodeHash)| s.0@)
}

pub open spec fn path_seconds(p: Seq<(NodeHash, NodeHash)>) -> Seq<Seq<u8>> {
    p.map_values(|s: (NodeHash, NodeHash)| s.1@)
}

/// Relies on `sha2::Sha256::digest`: the SHA-256 digest of the data, which
/// depends on the data alone.
#[verifier::external_body]
fn sha256(data: &[u8]) -> (r: NodeHash)
    ensures
        r@ == sha256_of(data@),
{
    let d = Sha256::digest(data);
    let mut out = [0u8; 32];
    out.copy_from_slice(d.as_slice());
    out
}

/// The digest of a leaf.
pub fn hash_leaf(s: &Scalar) -> (r: NodeHash)
    ensures
        r@ == leaf_digest(*s),
{
    sha256(s.bytes.as_slice())
}

/// The digest of an inner node.
pub fn hash_node(l: &NodeHash, r: &NodeHash) -> (h: NodeHash)
    ensures
        h@ == node_digest(l@, r@),
{
    let mut buf = [0u8; 64];
    let mut i: usize = 0;
    while i < 32
        invariant
            0 <= i <= 32,
            buf@.len() == 64,
            forall|j: int| 0 <= j < i ==> buf@[j] == l@[j],
            forall|j: int| 0 <= j < i ==> buf@[32 + j] == r@[j],
        decreases 32 - i,
    {
        buf[i] = l[i];
        buf[32 + i] = r[i];
        i = i + 1;
    }
    assert(buf@ =~= l@ + r@);
    sha256(buf.as_slice())
}

/// Equality of digests.
pub fn hash_eq(a: &NodeHash, b: &NodeHash) -> (r: bool)
    ensures
        r == (a@ == b@),
{
    let mut i: usize = 0;
    while i < 32
        invariant
            0 <= i <= 32,
            forall|j: int| 0 <= j < i ==> a@[j] == b@[j],
        decreases 32 - i,
    {
        if a[i] != b[i] {
            return false;
        }
        i = i + 1;
    }
    assert(a@ =~= b@);
    true
}

/// The level above `hs`.
fn parent_level(hs: &Vec<NodeHash>) -> (r: Vec<NodeHash>)
    ensures
        digests(r@) == parents(digests(hs@)),
{
    let len = hs.len();
    let n = len / 2;
    let mut out: Vec<NodeHash> = Vec::new();
    let mut j: usize = 0;
    while j < n
        invariant
            len == hs@.len(),
            n == hs@.len() / 2,
            0 <= j <= n,
            out@.len() == j,
            forall|k: int|
                0 <= k < j ==> #[trigger] out@[k]@ == node_digest(hs@[2 * k]@, hs@[2 * k + 1]@),
        decreases n - j,
    {
        assert(2 * j + 1 < hs@.len());
        let h = hash_node(&hs[2 * j], &hs[2 * j + 1]);
        out.push(h);
        j = j + 1;
    }
    assert(digests(out@) =~= parents(digests(hs@)));
    out
}

/// The level above a power-of-two level of two or more is a power-of-two
/// level of half the size.
proof fn lemma_pow2_half(n: nat)
    requires
        is_pow2(n),
        n > 1,
    ensures
        is_pow2(n / 2),
        n / 2 >= 1,
        n % 2 == 0,
        depth(n) == 1 + depth(n / 2),
{
}

/// Builds one party's tree over its shares: leaves are the hashes of the
/// shares, each level above hashes neighbouring pairs.
pub fn merkle_tree(vs: &Vec<MpcVal<Scalar>>) -> (r: MerkleTree)
    requires
        is_pow2(vs@.len()),
    ensures
        r.key@.len() == depth(vs@.len()),
        forall|l: int|
            0 <= l < r.key@.len() ==> digests(#[trigger] r.key@[l]@) == tree_level(
                leaves_of(vs@),
                l as nat,
            ),
        r.root@ == root_of(leaves_of(vs@)),
{
    let mut hashes: Vec<NodeHash> = Vec::new();
    let mut i: usize = 0;
    while i < vs.len()
        invariant
            0 <= i <= vs@.len(),
            hashes@.len() == i,
            forall|k: int| 0 <= k < i ==> #[trigger] hashes@[k]@ == leaf_digest(vs@[k].val),
        decreases vs@.len() - i,
    {
        let h = hash_leaf(&vs[i].val);
        hashes.push(h);
        i = i + 1;
    }
    let ghost leaves = leaves_of(vs@);
    assert(digests(hashes@) =~= leaves);
    let mut key: Key = Vec::new();
    while hashes.len() > 1
        invariant
            is_pow2(hashes@.len()),
            digests(hashes@) == tree_level(leaves, key@.len() as nat),
            root_of(digests(hashes@)) == root_of(leaves),
            key@.len() + depth(hashes@.len() as nat) == depth(vs@.len()),
            forall|l: int|
                0 <= l < key@.len() ==> digests(#[trigger] key@[l]@) == tree_level(
                    leaves,
                    l as nat,
                ),
        decreases hashes@.len(),
    {
        proof {
            lemma_pow2_half(hashes@.len() as nat);
        }
        let next = parent_level(&hashes);
        let ghost old_key = key@;
        let ghost old_hashes = hashes@;
        assert(digests(next@).len() == next@.len());
        assert(next@.len() == old_hashes.len() / 2);
        key.push(hashes);
        hashes = next;
        proof {
            assert(key@[key@.len() - 1]@ == old_hashes);
            assert forall|l: int| 0 <= l < key@.len() implies digests(
                #[trigger] key@[l]@,
            ) == tree_level(leaves, l as nat) by {
                if l < old_key.len() {
                    assert(key@[l] == old_key[l]);
                }
            }
        }
    }
    proof {
        assert(hashes@.len() == 1);
    }
    let root = hashes[0];
    MerkleTree { key, root }
}

/// The commitment: the two roots, the first party's first, whichever party
/// asks.
pub fn commitment(own_root: &NodeHash, peer_root: &NodeHash, first: bool) -> (r: Commitment)
    ensures
        first ==> r == (*own_root, *peer_root),
        !first ==> r == (*peer_root, *own_root),
{
    if first {
        (*own_root, *peer_root)
    } else {
        (*peer_root, *own_root)
    }
}

/// The sibling digests of position `i` in one party's tree, from the leaves
/// up: these are what the party exchanges for an opening.
pub fn sibling_path(key: &Key, i: usize) -> (r: Vec<NodeHash>)
    requires
        forall|l: int| 0 <= l < key@.len() ==> #[trigger] key@[l]@.len() > sibling_index(
            i as int / pow2_spec(l as nat),
        ) >= 0,
    ensures
        r@.len() == key@.len(),
        forall|l: int|
            0 <= l < key@.len() ==> #[trigger] r@[l] == key@[l]@[sibling_index(
                i as int / pow2_spec(l as nat),
            )],
{
    let mut out: Vec<NodeHash> = Vec::new();
    let mut idx: usize = i;
    let mut l: usize = 0;
    while l < key.len()
        invariant
            0 <= l <= key@.len(),
            out@.len() == l,
            idx as int == i as int / pow2_spec(l as nat),
            forall|k: int| 0 <= k < key@.len() ==> #[trigger] key@[k]@.len() > sibling_index(
                i as int / pow2_spec(k as nat),
            ) >= 0,
            forall|k: int|
                0 <= k < l ==> #[trigger] out@[k] == key@[k]@[sibling_index(
                    i as int / pow2_spec(k as nat),
                )],
        decreases key@.len() - l,
    {
        let s: usize = if idx % 2 == 0 {
            idx + 1
        } else {
            idx - 1
        };
        proof {
            assert(key@[l as int]@.len() > sibling_index(i as int / pow2_spec(l as nat)));
        }
        out.push(key[l][s]);
        proof {
            lemma_div_pow2_step(i as int, l as nat);
        }
        idx = idx / 2;
        l = l + 1;
    }
    out
}

/// `2^l`.
pub open spec fn pow2_spec(l: nat) -> int
    decreases l,
{
    if l == 0 {
        1
    } else {
        2 * pow2_spec((l - 1) as nat)
    }
}

proof fn lemma_pow2_pos(l: nat)
    ensures
        pow2_spec(l) >= 1,
    decreases l,
{
    if l > 0 {
        lemma_pow2_pos((l - 1) as nat);
    }
}

/// Halving `i / 2^l` gives `i / 2^(l+1)`.
proof fn lemma_div_pow2_step(i: int, l: nat)
    requires
        i >= 0,
    ensures
        (i / pow2_spec(l)) / 2 == i / pow2_spec(l + 1),
{
    lemma_pow2_pos(l);
    assert(pow2_spec(l + 1) == pow2_spec(l) * 2);
    vstd::arithmetic::div_mod::lemma_div_denominator(i, pow2_spec(l), 2);
}


/// An opening is valid against the roots `c0`, `c1` at position `i` for the
/// value `v`: the two shares sum to `v`, and each party's share, hashed up
/// along that party's siblings, reaches that party's root.
pub open spec fn opening_valid(
    c0: Seq<u8>,
    c1: Seq<u8>,
    s0: Scalar,
    s1: Scalar,
    sibs0: Seq<Seq<u8>>,
    sibs1: Seq<Seq<u8>>,
    i: int,
    v: int,
) -> bool {
    &&& fadd(s0@, s1@) == v
    &&& path_root(leaf_digest(s0), sibs0, i) == c0
    &&& path_root(leaf_digest(s1), sibs1, i) == c1
}

impl OpeningProof {
    pub open spec fn wf(&self) -> bool {
        self.first_share.wf() && self.second_share.wf()
    }
}

/// A tree of power-of-two size has `depth` levels below its root, and the
/// sibling of position `i / 2^l` lies within level `l`.
proof fn lemma_path_levels(hs: Seq<Seq<u8>>, i: int)
    requires
        is_pow2(hs.len()),
        0 <= i < hs.len(),
    ensures
        path_of(hs, i).len() == depth(hs.len()),
        forall|l: int|
            0 <= l < depth(hs.len()) ==> {
                &&& 0 <= #[trigger] sibling_index(i / pow2_spec(l as nat)) < tree_level(
                    hs,
                    l as nat,
                ).len()
                &&& path_of(hs, i)[l] == tree_level(hs, l as nat)[sibling_index(
                    i / pow2_spec(l as nat),
                )]
            },
    decreases hs.len(),
{
    if hs.len() > 1 {
        let ps = parents(hs);
        lemma_pow2_half(hs.len());
        lemma_path_levels(ps, i / 2);
        assert forall|l: int| 0 <= l < depth(hs.len()) implies {
            &&& 0 <= #[trigger] sibling_index(i / pow2_spec(l as nat)) < tree_level(
                hs,
                l as nat,
            ).len()
            &&& path_of(hs, i)[l] == tree_level(hs, l as nat)[sibling_index(
                i / pow2_spec(l as nat),
            )]
        } by {
            if l == 0 {
                assert(i / pow2_spec(0) == i);
            } else {
                lemma_level_shift(hs, (l - 1) as nat);
                lemma_pow2_pos((l - 1) as nat);
                vstd::arithmetic::div_mod::lemma_div_denominator(i, 2, pow2_spec((l - 1) as nat));
                assert(pow2_spec(l as nat) == 2 * pow2_spec((l - 1) as nat));
                assert((i / 2) / pow2_spec((l - 1) as nat) == i / pow2_spec(l as nat));
                assert(path_of(hs, i)[l] == path_of(ps, i / 2)[l - 1]);
            }
        }
    }
}

/// Taking parents first and then `l` levels is taking `l + 1` levels.
proof fn lemma_level_shift(hs: Seq<Seq<u8>>, l: nat)
    ensures
        tree_level(parents(hs), l) == tree_level(hs, l + 1),
    decreases l,
{
    assert(tree_level(hs, 0) == hs);
    if l > 0 {
        lemma_level_shift(hs, (l - 1) as nat);
        assert(tree_level(hs, l + 1) == parents(tree_level(hs, l)));
        assert(tree_level(parents(hs), l) == parents(tree_level(parents(hs), (l - 1) as nat)));
    } else {
        assert(tree_level(hs, 1) == parents(tree_level(hs, 0)));
    }
}

/// Hashing leaf `i` up along its siblings reaches the root.
proof fn lemma_path_reaches_root(hs: Seq<Seq<u8>>, i: int)
    requires
        is_pow2(hs.len()),
        0 <= i < hs.len(),
    ensures
        path_root(hs[i], path_of(hs, i), i) == root_of(hs),
    decreases hs.len(),
{
    if hs.len() > 1 {
        let ps = parents(hs);
        lemma_pow2_half(hs.len());
        lemma_path_reaches_root(ps, i / 2);
        let p = path_of(hs, i);
        assert(p.drop_first() =~= path_of(ps, i / 2));
        if i % 2 == 0 {
            assert(ps[i / 2] == node_digest(hs[i], hs[i + 1]));
        } else {
            assert(ps[i / 2] == node_digest(hs[i - 1], hs[i]));
        }
    }
}

/// Commit, open and check agree: where two parties hold shares `vs0` and
/// `vs1` of a power-of-two length, the opening of any position `i`, made of
/// both parties' shares there and their sibling digests, is valid against
/// the pair of roots for the sum of the two shares.
pub proof fn lemma_open_checks(vs0: Seq<MpcVal<Scalar>>, vs1: Seq<MpcVal<Scalar>>, i: int)
    requires
        vs0.len() == vs1.len(),
        is_pow2(vs0.len()),
        0 <= i < vs0.len(),
    ensures
        opening_valid(
            root_of(leaves_of(vs0)),
            root_of(leaves_of(vs1)),
            vs0[i].val,
            vs1[i].val,
            path_of(leaves_of(vs0), i),
            path_of(leaves_of(vs1), i),
            i,
            fadd(vs0[i].val@, vs1[i].val@),
        ),
{
    lemma_path_reaches_root(leaves_of(vs0), i);
    lemma_path_reaches_root(leaves_of(vs1), i);
}

/// An opening is rejected for every value other than the sum of its two
/// shares, whatever the roots and paths.
pub proof fn lemma_wrong_value_rejected(
    c0: Seq<u8>,
    c1: Seq<u8>,
    s0: Scalar,
    s1: Scalar,
    sibs0: Seq<Seq<u8>>,
    sibs1: Seq<Seq<u8>>,
    i: int,
    v: int,
)
    requires
        v != fadd(s0@, s1@),
    ensures
        !opening_valid(c0, c1, s0, s1, sibs0, sibs1, i, v),
{
}

/// The sibling digests of position `i` in this party's tree over `vs`,
/// committed under `key`: what it sends the peer for an opening.
pub fn own_path(vs: &Vec<MpcVal<Scalar>>, key: &Key, i: usize) -> (r: Vec<NodeHash>)
    requires
        is_pow2(vs@.len()),
        i < vs@.len(),
        key@.len() == depth(vs@.len()),
        forall|l: int|
            0 <= l < key@.len() ==> digests(#[trigger] key@[l]@) == tree_level(
                leaves_of(vs@),
                l as nat,
            ),
    ensures
        r@.len() == key@.len(),
        digests(r@) == path_of(leaves_of(vs@), i as int),
{
    let ghost leaves = leaves_of(vs@);
    proof {
        lemma_path_levels(leaves, i as int);
        assert forall|l: int| 0 <= l < key@.len() implies #[trigger] key@[l]@.len()
            > sibling_index(i as int / pow2_spec(l as nat)) >= 0 by {
            assert(digests(key@[l]@).len() == key@[l]@.len());
        }
    }
    let path = sibling_path(key, i);
    proof {
        assert(digests(path@) =~= path_of(leaves, i as int));
    }
    path
}

/// Opens position `i` of this party's shares `vs`, committed under `key`.
/// `peer_share` and `peer_path` are what the peer sent back for this
/// party's share at `i` and for its `sibling_path`. Returns the public sum
/// of the two shares and the proof, the first party's parts first.
pub fn open_at(
    vs: &Vec<MpcVal<Scalar>>,
    key: &Key,
    i: usize,
    peer_share: &Scalar,
    peer_path: &Vec<NodeHash>,
    first: bool,
) -> (r: (MpcVal<Scalar>, OpeningProof))
    requires
        is_pow2(vs@.len()),
        i < vs@.len(),
        forall|k: int| 0 <= k < vs@.len() ==> (#[trigger] vs@[k]).wf(),
        peer_share.wf(),
        key@.len() == depth(vs@.len()),
        forall|l: int|
            0 <= l < key@.len() ==> digests(#[trigger] key@[l]@) == tree_level(
                leaves_of(vs@),
                l as nat,
            ),
        peer_path@.len() == key@.len(),
    ensures
        r.0.wf(),
        !r.0.shared,
        r.0.val@ == fadd(vs@[i as int].val@, peer_share@),
        r.1.wf(),
        r.1.path@.len() == key@.len(),
        first ==> r.1.first_share == vs@[i as int].val && r.1.second_share == *peer_share
            && path_firsts(r.1.path@) == path_of(leaves_of(vs@), i as int)
            && path_seconds(r.1.path@) == digests(peer_path@),
        !first ==> r.1.first_share == *peer_share && r.1.second_share == vs@[i as int].val
            && path_firsts(r.1.path@) == digests(peer_path@)
            && path_seconds(r.1.path@) == path_of(leaves_of(vs@), i as int),
{
    let ghost leaves = leaves_of(vs@);
    let own = vs[i].val;
    let own_path = own_path(vs, key, i);
    let mut path: Vec<(NodeHash, NodeHash)> = Vec::new();
    let mut l: usize = 0;
    while l < own_path.len()
        invariant
            own_path@.len() == peer_path@.len(),
            0 <= l <= own_path@.len(),
            path@.len() == l,
            forall|k: int|
                0 <= k < l ==> #[trigger] path@[k] == (if first {
                    (own_path@[k], peer_path@[k])
                } else {
                    (peer_path@[k], own_path@[k])
                }),
        decreases own_path@.len() - l,
    {
        if first {
            path.push((own_path[l], peer_path[l]));
        } else {
            path.push((peer_path[l], own_path[l]));
        }
        l = l + 1;
    }
    proof {
        if first {
            assert(path_firsts(path@) =~= digests(own_path@));
            assert(path_seconds(path@) =~= digests(peer_path@));
        } else {
            assert(path_firsts(path@) =~= digests(peer_path@));
            assert(path_seconds(path@) =~= digests(own_path@));
        }
    }
    let value = MpcVal::from_public(own.add(peer_share));
    let proof = if first {
        OpeningProof { first_share: own, second_share: *peer_share, path }
    } else {
        OpeningProof { first_share: *peer_share, second_share: own, path }
    };
    (value, proof)
}

/// Hashes a leaf digest up along `sibs` from position `i`.
fn climb(h: NodeHash, sibs: &Vec<(NodeHash, NodeHash)>, second: bool, i: usize) -> (r: NodeHash)
    ensures
        r@ == path_root(
            h@,
            if second {
                path_seconds(sibs@)
            } else {
                path_firsts(sibs@)
            },
            i as int,
        ),
{
    let ghost all = if second {
        path_seconds(sibs@)
    } else {
        path_firsts(sibs@)
    };
    let mut cur = h;
    let mut idx = i;
    assert(all.subrange(0, all.len() as int) =~= all);
    let mut j: usize = 0;
    while j < sibs.len()
        invariant
            0 <= j <= sibs@.len(),
            all.len() == sibs@.len(),
            all == (if second {
                path_seconds(sibs@)
            } else {
                path_firsts(sibs@)
            }),
            path_root(cur@, all.subrange(j as int, all.len() as int), idx as int) == path_root(
                h@,
                all,
                i as int,
            ),
        decreases sibs@.len() - j,
    {
        let s = if second {
            sibs[j].1
        } else {
            sibs[j].0
        };
        assert(s@ == all[j as int]);
        let ghost rest = all.subrange(j as int, all.len() as int);
        assert(rest.drop_first() =~= all.subrange(j + 1, all.len() as int));
        cur = if idx % 2 == 0 {
            hash_node(&cur, &s)
        } else {
            hash_node(&s, &cur)
        };
        idx = idx / 2;
        j = j + 1;
    }
    assert(all.subrange(all.len() as int, all.len() as int) =~= Seq::<Seq<u8>>::empty());
    assert(all =~= all.subrange(0, all.len() as int));
    cur
}

/// Checks an opening of position `i` for the value `v` against the pair of
/// roots `c`.
pub fn check_opening(c: &Commitment, p: &OpeningProof, i: usize, v: &MpcVal<Scalar>) -> (r: bool)
    requires
        p.wf(),
    ensures
        r == opening_valid(
            c.0@,
            c.1@,
            p.first_share,
            p.second_share,
            path_firsts(p.path@),
            path_seconds(p.path@),
            i as int,
            v.val@,
        ),
{
    let sum = p.first_share.add(&p.second_share);
    if !sum.equals(&v.val) {
        return false;
    }
    let h0 = climb(hash_leaf(&p.first_share), &p.path, false, i);
    let h1 = climb(hash_leaf(&p.second_share), &p.path, true, i);
    hash_eq(&h0, &c.0) && hash_eq(&h1, &c.1)
}
} // verus!
