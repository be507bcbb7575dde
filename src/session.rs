//! Openings driven through the channel: each opening of a shared value is
//! one exchange, and a share-times-share product is two.
use crate::channel::{complete_exchange, exchange_bytes, frame_of, Channel, ExchangePlan, HEADER_BYTES};
use crate::field::{fadd, le_value, modulus, Scalar};
use crate::merkle::{
    commitment, depth, digests, is_pow2, leaves_of, merkle_tree, open_at, own_path, path_firsts,
    path_of, path_seconds, root_of, tree_level, Commitment, Key, MerkleTree, NodeHash,
    OpeningProof,
};
use crate::protocol::{beaver_share, field_mul, field_mul_masks, field_triple, stub_share, triple_ok, Triple};
use crate::group_protocol::{
    curve_beaver_share, curve_mul, curve_scalar_triple, pairing, pairing_beaver_share,
    pairing_triple,
};
use crate::groups::{
    g1_decodes, g1_sum, g2_decodes, g2_sum, identity_form_ok, G1Elem, G2Elem, GtElem,
};
use crate::shared::{MpcCurve, MpcCurve2, MpcVal};
use vstd::prelude::*;

verus! {

/// The channel can carry one more exchange of `n` bytes each way.
pub open spec fn has_room_for(ch: Channel, n: int) -> bool {
    &&& ch.exchanges < usize::MAX
    &&& ch.bytes_sent + HEADER_BYTES + n <= usize::MAX
    &&& ch.bytes_recv + HEADER_BYTES + n <= usize::MAX
}

/// The channel can carry one more exchange of a scalar each way.
pub open spec fn has_room(ch: Channel) -> bool {
    has_room_for(ch, 32)
}

/// A step a party takes on the channel: the begin and end of opening a
/// value (`publicize_begin`, `publicize_end`), and the three steps of a
/// share-times-share product (`product_begin`, `product_step`,
/// `product_end`, and likewise for points and the pairing).
pub enum Move {
    OpenBegin,
    OpenEnd,
    ProductBegin,
    ProductStep,
    ProductEnd,
}

/// The exchanges a step adds to the channel's count, as each step's
/// contract states it: one for a begin and for a product's middle step,
/// none for an end.
pub open spec fn move_exchanges(m: Move) -> int {
    match m {
        Move::OpenBegin => 1,
        Move::ProductBegin => 1,
        Move::ProductStep => 1,
        _ => 0,
    }
}

/// How often `m` occurs among the steps `ms`.
pub open spec fn occurrences(ms: Seq<Move>, m: Move) -> int
    decreases ms.len(),
{
    if ms.len() == 0 {
        0
    } else {
        occurrences(ms.drop_last(), m) + if ms.last() == m {
            1int
        } else {
            0int
        }
    }
}

/// The count grows by one per begin and per middle step.
proof fn lemma_tally_steps(ms: Seq<Move>, ex: Seq<int>)
    requires
        ex.len() == ms.len() + 1,
        forall|k: int| 0 <= k < ms.len() ==> ex[k + 1] == ex[k] + move_exchanges(#[trigger] ms[k]),
    ensures
        ex[ms.len() as int] == ex[0] + occurrences(ms, Move::OpenBegin) + occurrences(
            ms,
            Move::ProductBegin,
        ) + occurrences(ms, Move::ProductStep),
    decreases ms.len(),
{
    if ms.len() > 0 {
        let n = ms.len() - 1;
        lemma_tally_steps(ms.drop_last(), ex.subrange(0, ms.len() as int));
        assert(ex[n + 1] == ex[n] + move_exchanges(ms[n]));
    }
}

/// The exchange count of a channel: over any run of steps, each adding what
/// its contract says, in which every opening and every product that was
/// begun has ended, the count grows by the number of openings plus two per
/// share-times-share product.
pub proof fn lemma_exchange_tally(ms: Seq<Move>, ex: Seq<int>)
    requires
        ex.len() == ms.len() + 1,
        forall|k: int| 0 <= k < ms.len() ==> ex[k + 1] == ex[k] + move_exchanges(#[trigger] ms[k]),
        occurrences(ms, Move::OpenBegin) == occurrences(ms, Move::OpenEnd),
        occurrences(ms, Move::ProductBegin) == occurrences(ms, Move::ProductEnd),
        occurrences(ms, Move::ProductStep) == occurrences(ms, Move::ProductEnd),
    ensures
        ex[ms.len() as int] == ex[0] + occurrences(ms, Move::OpenEnd) + 2 * occurrences(
            ms,
            Move::ProductEnd,
        ),
{
    lemma_tally_steps(ms, ex);
}

/// Starts opening a shared value: plans the exchange of this party's
/// summand, which counts as one exchange.
pub fn publicize_begin(ch: &mut Channel, v: &MpcVal<Scalar>) -> (r: ExchangePlan)
    requires
        old(ch).connected,
        !old(ch).pending,
        has_room(*old(ch)),
        v.shared,
    ensures
        r.frame@ == frame_of(v.val.bytes@),
        r.send_first == old(ch).talk_first,
        final(ch).pending,
        final(ch).connected,
        final(ch).talk_first == old(ch).talk_first,
        final(ch).exchanges == old(ch).exchanges + 1,
        final(ch).bytes_sent == old(ch).bytes_sent + HEADER_BYTES + 32,
        final(ch).bytes_recv == old(ch).bytes_recv,
{
    let payload = v.val.to_vec();
    exchange_bytes(ch, &payload)
}

/// Ends the opening with the payload read from the peer. `None` where the
/// payload is not a canonical scalar; else the public sum of the two
/// summands.
pub fn publicize_end(ch: &mut Channel, v: &MpcVal<Scalar>, payload: Vec<u8>) -> (r: Option<
    MpcVal<Scalar>,
>)
    requires
        old(ch).pending,
        old(ch).bytes_recv + HEADER_BYTES + payload@.len() <= usize::MAX,
        v.wf(),
        v.shared,
    ensures
        !final(ch).pending,
        final(ch).connected == old(ch).connected,
        final(ch).talk_first == old(ch).talk_first,
        final(ch).exchanges == old(ch).exchanges,
        final(ch).bytes_sent == old(ch).bytes_sent,
        final(ch).bytes_recv == old(ch).bytes_recv + HEADER_BYTES + payload@.len(),
        r.is_some() == (payload@.len() == 32 && le_value(payload@) < modulus()),
        r.is_some() ==> {
            let o = r.unwrap();
            &&& o.wf()
            &&& !o.shared
            &&& o.val@ == fadd(le_value(payload@), v.val@)
        },
{
    let received = complete_exchange(ch, payload);
    match Scalar::from_payload(&received) {
        None => None,
        Some(peer) => Some(v.publicize_with(&peer)),
    }
}

/// A share-times-share product under way: the operands, the triple it
/// consumes, the two masks this party opens, and the peer's summand of the
/// first mask once it has come in.
pub struct ProductRun {
    pub a: MpcVal<Scalar>,
    pub b: MpcVal<Scalar>,
    pub triple: Triple<Scalar, Scalar, Scalar>,
    pub e: MpcVal<Scalar>,
    pub d: MpcVal<Scalar>,
    pub first: bool,
    pub peer_e: Option<Scalar>,
}

impl ProductRun {
    pub open spec fn wf(&self) -> bool {
        &&& self.a.wf() && self.a.shared
        &&& self.b.wf() && self.b.shared
        &&& triple_ok(self.triple)
        &&& self.triple.0.val@ == stub_share(self.first)
        &&& self.triple.1.val@ == stub_share(self.first)
        &&& self.triple.2.val@ == stub_share(self.first)
        &&& self.e.wf() && self.e.val@ == fadd(self.a.val@, self.triple.0.val@)
        &&& self.d.wf() && self.d.val@ == fadd(self.b.val@, self.triple.1.val@)
        &&& self.peer_e.is_some() ==> self.peer_e.unwrap().wf()
    }
}

/// Starts the product of two shared values: draws the triple and plans the
/// exchange of the first mask, `a + x`; one exchange.
pub fn product_begin(ch: &mut Channel, a: &MpcVal<Scalar>, b: &MpcVal<Scalar>, first: bool) -> (r: (
    ProductRun,
    ExchangePlan,
))
    requires
        old(ch).connected,
        !old(ch).pending,
        has_room(*old(ch)),
        a.wf() && a.shared,
        b.wf() && b.shared,
    ensures
        r.0.wf(),
        r.0.a == *a,
        r.0.b == *b,
        r.0.first == first,
        r.0.peer_e.is_none(),
        r.1.frame@ == frame_of(r.0.e.val.bytes@),
        r.1.send_first == old(ch).talk_first,
        final(ch).pending,
        final(ch).connected,
        final(ch).talk_first == old(ch).talk_first,
        final(ch).exchanges == old(ch).exchanges + 1,
        final(ch).bytes_sent == old(ch).bytes_sent + HEADER_BYTES + 32,
        final(ch).bytes_recv == old(ch).bytes_recv,
{
    let t = field_triple(first);
    let (e, d) = field_mul_masks(a, b, &t, first);
    let payload = e.val.to_vec();
    let plan = exchange_bytes(ch, &payload);
    (ProductRun { a: *a, b: *b, triple: t, e, d, first, peer_e: None }, plan)
}

/// Takes the peer's summand of the first mask and plans the exchange of
/// the second, `b + y`; one more exchange. `None` where the payload is not a
/// canonical scalar.
pub fn product_step(ch: &mut Channel, run: ProductRun, payload: Vec<u8>) -> (r: Option<(
    ProductRun,
    ExchangePlan,
)>)
    requires
        run.wf(),
        run.peer_e.is_none(),
        old(ch).pending,
        old(ch).connected,
        old(ch).bytes_recv + HEADER_BYTES + payload@.len() <= usize::MAX,
        old(ch).exchanges < usize::MAX,
        old(ch).bytes_sent + HEADER_BYTES + 32 <= usize::MAX,
    ensures
        final(ch).bytes_recv == old(ch).bytes_recv + HEADER_BYTES + payload@.len(),
        final(ch).talk_first == old(ch).talk_first,
        final(ch).connected,
        r.is_some() == (payload@.len() == 32 && le_value(payload@) < modulus()),
        r.is_none() ==> !final(ch).pending && final(ch).exchanges == old(ch).exchanges
            && final(ch).bytes_sent == old(ch).bytes_sent,
        r.is_some() ==> {
            let (next, plan) = r.unwrap();
            &&& next.wf()
            &&& next.a == run.a && next.b == run.b && next.triple == run.triple
            &&& next.e == run.e && next.d == run.d && next.first == run.first
            &&& next.peer_e.is_some() && next.peer_e.unwrap().bytes@ == payload@
            &&& plan.frame@ == frame_of(run.d.val.bytes@)
            &&& plan.send_first == old(ch).talk_first
            &&& final(ch).pending
            &&& final(ch).exchanges == old(ch).exchanges + 1
            &&& final(ch).bytes_sent == old(ch).bytes_sent + HEADER_BYTES + 32
        },
{
    let received = complete_exchange(ch, payload);
    match Scalar::from_payload(&received) {
        None => None,
        Some(peer_e) => {
            let out = run.d.val.to_vec();
            let plan = exchange_bytes(ch, &out);
            Some((ProductRun { peer_e: Some(peer_e), ..run }, plan))
        },
    }
}

/// Takes the peer's summand of the second mask and finishes the product:
/// this party's share of `a * b`. No further exchange. `None` where the
/// payload is not a canonical scalar.
pub fn product_end(ch: &mut Channel, run: &ProductRun, payload: Vec<u8>) -> (r: Option<
    MpcVal<Scalar>,
>)
    requires
        run.wf(),
        run.peer_e.is_some(),
        old(ch).pending,
        old(ch).bytes_recv + HEADER_BYTES + payload@.len() <= usize::MAX,
    ensures
        !final(ch).pending,
        final(ch).connected == old(ch).connected,
        final(ch).talk_first == old(ch).talk_first,
        final(ch).exchanges == old(ch).exchanges,
        final(ch).bytes_sent == old(ch).bytes_sent,
        final(ch).bytes_recv == old(ch).bytes_recv + HEADER_BYTES + payload@.len(),
        r.is_some() == (payload@.len() == 32 && le_value(payload@) < modulus()),
        r.is_some() ==> {
            let v = r.unwrap();
            &&& v.wf()
            &&& v.shared
            &&& v.val@ == beaver_share(
                run.triple.0.val@,
                run.triple.1.val@,
                run.triple.2.val@,
                fadd(run.peer_e.unwrap()@, run.e.val@),
                fadd(le_value(payload@), run.d.val@),
                run.first,
            )
        },
{
    let received = complete_exchange(ch, payload);
    match Scalar::from_payload(&received) {
        None => None,
        Some(peer_d) => {
            let peer_e = run.peer_e.unwrap();
            Some(field_mul(&run.a, &run.b, &run.triple, &peer_e, &peer_d, run.first))
        },
    }
}


/// The payload as 32 bytes, where it has that length.
pub fn bytes32(v: &Vec<u8>) -> (r: Option<[u8; 32]>)
    ensures
        r.is_some() == (v@.len() == 32),
        r.is_some() ==> r.unwrap()@ == v@,
{
    if v.len() != 32 {
        return None;
    }
    let mut a = [0u8; 32];
    let mut i: usize = 0;
    while i < 32
        invariant
            0 <= i <= 32,
            v@.len() == 32,
            a@.len() == 32,
            forall|j: int| 0 <= j < i ==> a@[j] == v@[j],
        decreases 32 - i,
    {
        a[i] = v[i];
        i = i + 1;
    }
    assert(a@ =~= v@);
    Some(a)
}

/// The payload as 48 bytes, where it has that length.
pub fn bytes48(v: &Vec<u8>) -> (r: Option<[u8; 48]>)
    ensures
        r.is_some() == (v@.len() == 48),
        r.is_some() ==> r.unwrap()@ == v@,
{
    if v.len() != 48 {
        return None;
    }
    let mut a = [0u8; 48];
    let mut i: usize = 0;
    while i < 48
        invariant
            0 <= i <= 48,
            v@.len() == 48,
            a@.len() == 48,
            forall|j: int| 0 <= j < i ==> a@[j] == v@[j],
        decreases 48 - i,
    {
        a[i] = v[i];
        i = i + 1;
    }
    assert(a@ =~= v@);
    Some(a)
}

/// The payload as 96 bytes, where it has that length.
pub fn bytes96(v: &Vec<u8>) -> (r: Option<[u8; 96]>)
    ensures
        r.is_some() == (v@.len() == 96),
        r.is_some() ==> r.unwrap()@ == v@,
{
    if v.len() != 96 {
        return None;
    }
    let mut a = [0u8; 96];
    let mut i: usize = 0;
    while i < 96
        invariant
            0 <= i <= 96,
            v@.len() == 96,
            a@.len() == 96,
            forall|j: int| 0 <= j < i ==> a@[j] == v@[j],
        decreases 96 - i,
    {
        a[i] = v[i];
        i = i + 1;
    }
    assert(a@ =~= v@);
    Some(a)
}

/// Starts a commitment: builds this party's tree over `vs` and plans the
/// exchange of its root; one exchange.
pub fn commit_begin(ch: &mut Channel, vs: &Vec<MpcVal<Scalar>>) -> (r: (MerkleTree, ExchangePlan))
    requires
        old(ch).connected,
        !old(ch).pending,
        has_room(*old(ch)),
        is_pow2(vs@.len()),
    ensures
        r.0.key@.len() == depth(vs@.len()),
        forall|l: int|
            0 <= l < r.0.key@.len() ==> digests(#[trigger] r.0.key@[l]@) == tree_level(
                leaves_of(vs@),
                l as nat,
            ),
        r.0.root@ == root_of(leaves_of(vs@)),
        r.1.frame@ == frame_of(r.0.root@),
        r.1.send_first == old(ch).talk_first,
        final(ch).pending,
        final(ch).connected,
        final(ch).talk_first == old(ch).talk_first,
        final(ch).exchanges == old(ch).exchanges + 1,
        final(ch).bytes_sent == old(ch).bytes_sent + HEADER_BYTES + 32,
        final(ch).bytes_recv == old(ch).bytes_recv,
{
    let tree = merkle_tree(vs);
    let root = root_payload(&tree.root);
    let plan = exchange_bytes(ch, &root);
    (tree, plan)
}

/// A digest as a payload.
fn root_payload(h: &NodeHash) -> (r: Vec<u8>)
    ensures
        r@ == h@,
{
    let mut v: Vec<u8> = Vec::new();
    let mut i: usize = 0;
    while i < 32
        invariant
            0 <= i <= 32,
            v@ == h@.subrange(0, i as int),
        decreases 32 - i,
    {
        v.push(h[i]);
        i = i + 1;
        assert(v@ =~= h@.subrange(0, i as int));
    }
    assert(v@ =~= h@);
    v
}

/// Ends the commitment with the peer's root: the pair of roots, the first
/// party's first; `None` where the payload is not a digest. No further
/// exchange.
pub fn commit_end(ch: &mut Channel, own_root: &NodeHash, payload: Vec<u8>, first: bool) -> (r:
    Option<Commitment>)
    requires
        old(ch).pending,
        old(ch).bytes_recv + HEADER_BYTES + payload@.len() <= usize::MAX,
    ensures
        !final(ch).pending,
        final(ch).connected == old(ch).connected,
        final(ch).talk_first == old(ch).talk_first,
        final(ch).exchanges == old(ch).exchanges,
        final(ch).bytes_sent == old(ch).bytes_sent,
        final(ch).bytes_recv == old(ch).bytes_recv + HEADER_BYTES + payload@.len(),
        r.is_some() == (payload@.len() == 32),
        r.is_some() && first ==> r.unwrap().0 == *own_root && r.unwrap().1@ == payload@,
        r.is_some() && !first ==> r.unwrap().0@ == payload@ && r.unwrap().1 == *own_root,
{
    let received = complete_exchange(ch, payload);
    match bytes32(&received) {
        None => None,
        Some(peer) => Some(commitment(own_root, &peer, first)),
    }
}

/// An opening under way: the position, this party's siblings, and what has
/// come in from the peer so far: its share, then its siblings level by
/// level.
pub struct OpeningRun {
    pub i: usize,
    pub own_path: Vec<NodeHash>,
    pub peer_share: Option<Scalar>,
    pub peer_path: Vec<NodeHash>,
}

impl OpeningRun {
    pub open spec fn wf(&self) -> bool {
        &&& self.peer_share.is_some() ==> self.peer_share.unwrap().wf()
        &&& self.peer_share.is_none() ==> self.peer_path@.len() == 0
        &&& self.peer_path@.len() <= self.own_path@.len()
    }

    /// Everything has come in.
    pub open spec fn done(&self) -> bool {
        self.peer_share.is_some() && self.peer_path@.len() == self.own_path@.len()
    }
}

/// Starts opening position `i` of this party's shares `vs`, committed under
/// `key`: plans the exchange of the share there; one exchange. The opening
/// takes one exchange more per level of the tree.
pub fn open_begin(ch: &mut Channel, vs: &Vec<MpcVal<Scalar>>, key: &Key, i: usize) -> (r: (
    OpeningRun,
    ExchangePlan,
))
    requires
        old(ch).connected,
        !old(ch).pending,
        has_room(*old(ch)),
        is_pow2(vs@.len()),
        i < vs@.len(),
        key@.len() == depth(vs@.len()),
        forall|l: int|
            0 <= l < key@.len() ==> digests(#[trigger] key@[l]@) == tree_level(
                leaves_of(vs@),
                l as nat,
            ),
    ensures
        r.0.wf(),
        r.0.i == i,
        r.0.peer_share.is_none(),
        r.0.own_path@.len() == key@.len(),
        digests(r.0.own_path@) == path_of(leaves_of(vs@), i as int),
        r.1.frame@ == frame_of(vs@[i as int].val.bytes@),
        r.1.send_first == old(ch).talk_first,
        final(ch).pending,
        final(ch).connected,
        final(ch).talk_first == old(ch).talk_first,
        final(ch).exchanges == old(ch).exchanges + 1,
        final(ch).bytes_sent == old(ch).bytes_sent + HEADER_BYTES + 32,
        final(ch).bytes_recv == old(ch).bytes_recv,
{
    let path = own_path(vs, key, i);
    let share = vs[i].val.to_vec();
    let plan = exchange_bytes(ch, &share);
    (OpeningRun { i, own_path: path, peer_share: None, peer_path: Vec::new() }, plan)
}

/// Takes the next payload of an opening: the peer's share first, then its
/// siblings. Plans the exchange of this party's next sibling where one is
/// left, one exchange; else nothing more is exchanged. `None` where the
/// payload is malformed.
pub fn open_step(ch: &mut Channel, run: OpeningRun, payload: Vec<u8>) -> (r: Option<(
    OpeningRun,
    Option<ExchangePlan>,
)>)
    requires
        run.wf(),
        !run.done(),
        old(ch).pending,
        old(ch).connected,
        old(ch).bytes_recv + HEADER_BYTES + payload@.len() <= usize::MAX,
        old(ch).exchanges < usize::MAX,
        old(ch).bytes_sent + HEADER_BYTES + 32 <= usize::MAX,
    ensures
        final(ch).bytes_recv == old(ch).bytes_recv + HEADER_BYTES + payload@.len(),
        final(ch).talk_first == old(ch).talk_first,
        final(ch).connected,
        r.is_none() ==> !final(ch).pending && final(ch).exchanges == old(ch).exchanges,
        r.is_some() ==> {
            let (next, plan) = r.unwrap();
            &&& next.wf()
            &&& next.i == run.i
            &&& next.own_path == run.own_path
            &&& run.peer_share.is_none() ==> next.peer_share.is_some()
                && next.peer_share.unwrap().bytes@ == payload@ && next.peer_path@.len() == 0
            &&& run.peer_share.is_some() ==> next.peer_share == run.peer_share
                && next.peer_path@ == run.peer_path@.push(next.peer_path@.last())
                && next.peer_path@.last()@ == payload@
            &&& plan.is_some() == !next.done()
            &&& plan.is_some() ==> plan.unwrap().frame@ == frame_of(
                run.own_path@[next.peer_path@.len() as int]@,
            ) && plan.unwrap().send_first == old(ch).talk_first && final(ch).pending
                && final(ch).exchanges == old(ch).exchanges + 1 && final(ch).bytes_sent
                == old(ch).bytes_sent + HEADER_BYTES + 32
            &&& plan.is_none() ==> !final(ch).pending && final(ch).exchanges
                == old(ch).exchanges && final(ch).bytes_sent == old(ch).bytes_sent
        },
        r.is_some() == (if run.peer_share.is_none() {
            payload@.len() == 32 && le_value(payload@) < modulus()
        } else {
            payload@.len() == 32
        }),
{
    let received = complete_exchange(ch, payload);
    let mut next = run;
    if next.peer_share.is_none() {
        match Scalar::from_payload(&received) {
            None => {
                return None;
            },
            Some(s) => {
                next.peer_share = Some(s);
            },
        }
    } else {
        match bytes32(&received) {
            None => {
                return None;
            },
            Some(h) => {
                next.peer_path.push(h);
            },
        }
    }
    let k = next.peer_path.len();
    if k < next.own_path.len() {
        let out = root_payload(&next.own_path[k]);
        let plan = exchange_bytes(ch, &out);
        Some((next, Some(plan)))
    } else {
        Some((next, None))
    }
}

/// Finishes an opening once everything has come in: the public sum of the
/// two shares and the proof, as `open_at` gives them.
pub fn open_finish(vs: &Vec<MpcVal<Scalar>>, key: &Key, run: &OpeningRun, first: bool) -> (r: (
    MpcVal<Scalar>,
    OpeningProof,
))
    requires
        run.wf(),
        run.done(),
        is_pow2(vs@.len()),
        run.i < vs@.len(),
        forall|k: int| 0 <= k < vs@.len() ==> (#[trigger] vs@[k]).wf(),
        key@.len() == depth(vs@.len()),
        run.own_path@.len() == key@.len(),
        forall|l: int|
            0 <= l < key@.len() ==> digests(#[trigger] key@[l]@) == tree_level(
                leaves_of(vs@),
                l as nat,
            ),
    ensures
        r.0.wf(),
        !r.0.shared,
        r.0.val@ == fadd(vs@[run.i as int].val@, run.peer_share.unwrap()@),
        r.1.wf(),
        first ==> r.1.first_share == vs@[run.i as int].val
            && r.1.second_share == run.peer_share.unwrap()
            && path_firsts(r.1.path@) == path_of(leaves_of(vs@), run.i as int)
            && path_seconds(r.1.path@) == digests(run.peer_path@),
        !first ==> r.1.first_share == run.peer_share.unwrap()
            && r.1.second_share == vs@[run.i as int].val
            && path_firsts(r.1.path@) == digests(run.peer_path@)
            && path_seconds(r.1.path@) == path_of(leaves_of(vs@), run.i as int),
{
    let peer = run.peer_share.unwrap();
    open_at(vs, key, run.i, &peer, &run.peer_path, first)
}


/// An encoding of 48 bytes as a payload.
fn payload48(b: &[u8; 48]) -> (r: Vec<u8>)
    ensures
        r@ == b@,
{
    let mut v: Vec<u8> = Vec::new();
    let mut i: usize = 0;
    while i < 48
        invariant
            0 <= i <= 48,
            v@ == b@.subrange(0, i as int),
        decreases 48 - i,
    {
        v.push(b[i]);
        i = i + 1;
        assert(v@ =~= b@.subrange(0, i as int));
    }
    assert(v@ =~= b@);
    v
}

/// An encoding of 96 bytes as a payload.
fn payload96(b: &[u8; 96]) -> (r: Vec<u8>)
    ensures
        r@ == b@,
{
    let mut v: Vec<u8> = Vec::new();
    let mut i: usize = 0;
    while i < 96
        invariant
            0 <= i <= 96,
            v@ == b@.subrange(0, i as int),
        decreases 96 - i,
    {
        v.push(b[i]);
        i = i + 1;
        assert(v@ =~= b@.subrange(0, i as int));
    }
    assert(v@ =~= b@);
    v
}

/// A received point of the first group, where the payload is a canonical
/// encoding of one.
pub fn decode_g1(v: &Vec<u8>) -> (r: Option<G1Elem>)
    ensures
        r.is_some() == (v@.len() == 48 && g1_decodes(v@) && identity_form_ok(v@)),
        r.is_some() ==> r.unwrap().bytes@ == v@ && r.unwrap().wf(),
{
    match bytes48(v) {
        None => None,
        Some(b) => G1Elem::from_bytes(b),
    }
}

/// A received point of the second group, where the payload is a canonical
/// encoding of one.
pub fn decode_g2(v: &Vec<u8>) -> (r: Option<G2Elem>)
    ensures
        r.is_some() == (v@.len() == 96 && g2_decodes(v@) && identity_form_ok(v@)),
        r.is_some() ==> r.unwrap().bytes@ == v@ && r.unwrap().wf(),
{
    match bytes96(v) {
        None => None,
        Some(b) => G2Elem::from_bytes(b),
    }
}

/// A share-times-share curve_mul under way (a point of the first group times a scalar): the operands, the
/// triple it consumes, the two masks this party opens, and the peer's
/// summand of the first mask once it has come in.
pub struct CurveMulRun {
    pub a: MpcCurve<G1Elem>,
    pub b: MpcVal<Scalar>,
    pub triple: (MpcCurve<G1Elem>, MpcVal<Scalar>, MpcCurve<G1Elem>),
    pub e: MpcCurve<G1Elem>,
    pub d: MpcVal<Scalar>,
    pub first: bool,
    pub peer_e: Option<G1Elem>,
}

impl CurveMulRun {
    pub open spec fn wf(&self) -> bool {
        &&& self.a.wf() && self.a.shared
        &&& self.b.wf() && self.b.shared
        &&& self.triple.0.wf() && self.triple.1.wf() && self.triple.2.wf()
        &&& self.triple.0.shared && self.triple.1.shared && self.triple.2.shared
        &&& self.e.wf() && self.e.val.bytes@ == g1_sum(self.a.val.bytes@, self.triple.0.val.bytes@)
        &&& self.d.wf() && self.d.val@ == fadd(self.b.val@, self.triple.1.val@)
        &&& self.peer_e.is_some() ==> self.peer_e.unwrap().wf()
    }
}

/// Starts the curve_mul of two shared operands: draws the triple and plans the
/// exchange of the first mask, `a + x`; one exchange.
pub fn curve_mul_begin(ch: &mut Channel, a: &MpcCurve<G1Elem>, b: &MpcVal<Scalar>, first: bool) -> (r: (
    CurveMulRun,
    ExchangePlan,
))
    requires
        old(ch).connected,
        !old(ch).pending,
        has_room_for(*old(ch), 48),
        a.wf() && a.shared,
        b.wf() && b.shared,
    ensures
        r.0.wf(),
        r.0.a == *a,
        r.0.b == *b,
        r.0.first == first,
        r.0.peer_e.is_none(),
        r.1.frame@ == frame_of(r.0.e.val.bytes@),
        r.1.send_first == old(ch).talk_first,
        final(ch).pending,
        final(ch).connected,
        final(ch).talk_first == old(ch).talk_first,
        final(ch).exchanges == old(ch).exchanges + 1,
        final(ch).bytes_sent == old(ch).bytes_sent + HEADER_BYTES + 48,
        final(ch).bytes_recv == old(ch).bytes_recv,
{
    let t = curve_scalar_triple(first);
    let e = a.add(&t.0, first);
    let d = b.add(&t.1, first);
    let out = payload48(&e.val.bytes);
    let plan = exchange_bytes(ch, &out);
    (CurveMulRun { a: *a, b: *b, triple: t, e, d, first, peer_e: None }, plan)
}

/// Takes the peer's summand of the first mask and plans the exchange of
/// the second, `b + y`; one more exchange. `None` where the payload is not
/// a canonical point.
pub fn curve_mul_step(ch: &mut Channel, run: CurveMulRun, payload: Vec<u8>) -> (r: Option<(
    CurveMulRun,
    ExchangePlan,
)>)
    requires
        run.wf(),
        run.peer_e.is_none(),
        old(ch).pending,
        old(ch).connected,
        old(ch).bytes_recv + HEADER_BYTES + payload@.len() <= usize::MAX,
        old(ch).exchanges < usize::MAX,
        old(ch).bytes_sent + HEADER_BYTES + 32 <= usize::MAX,
    ensures
        final(ch).bytes_recv == old(ch).bytes_recv + HEADER_BYTES + payload@.len(),
        final(ch).talk_first == old(ch).talk_first,
        final(ch).connected,
        r.is_some() == (payload@.len() == 48 && g1_decodes(payload@) && identity_form_ok(
            payload@,
        )),
        r.is_none() ==> !final(ch).pending && final(ch).exchanges == old(ch).exchanges
            && final(ch).bytes_sent == old(ch).bytes_sent,
        r.is_some() ==> {
            let (next, plan) = r.unwrap();
            &&& next.wf()
            &&& next.a == run.a && next.b == run.b && next.triple == run.triple
            &&& next.e == run.e && next.d == run.d && next.first == run.first
            &&& next.peer_e.is_some() && next.peer_e.unwrap().bytes@ == payload@
            &&& plan.frame@ == frame_of(run.d.val.bytes@)
            &&& plan.send_first == old(ch).talk_first
            &&& final(ch).pending
            &&& final(ch).exchanges == old(ch).exchanges + 1
            &&& final(ch).bytes_sent == old(ch).bytes_sent + HEADER_BYTES + 32
        },
{
    let received = complete_exchange(ch, payload);
    match decode_g1(&received) {
        None => None,
        Some(peer_e) => {
            let out = run.d.val.to_vec();
            let plan = exchange_bytes(ch, &out);
            Some((CurveMulRun { peer_e: Some(peer_e), ..run }, plan))
        },
    }
}

/// Takes the peer's summand of the second mask and finishes: this party's
/// share of the result. No further exchange. `None` where the payload is
/// malformed.
pub fn curve_mul_end(ch: &mut Channel, run: &CurveMulRun, payload: Vec<u8>) -> (r: Option<MpcCurve<G1Elem>>)
    requires
        run.wf(),
        run.peer_e.is_some(),
        old(ch).pending,
        old(ch).bytes_recv + HEADER_BYTES + payload@.len() <= usize::MAX,
    ensures
        !final(ch).pending,
        final(ch).connected == old(ch).connected,
        final(ch).talk_first == old(ch).talk_first,
        final(ch).exchanges == old(ch).exchanges,
        final(ch).bytes_sent == old(ch).bytes_sent,
        final(ch).bytes_recv == old(ch).bytes_recv + HEADER_BYTES + payload@.len(),
        r.is_some() == (payload@.len() == 32 && le_value(payload@) < modulus()),
        r.is_some() ==> r.unwrap().wf() && r.unwrap().shared && r.unwrap().val.bytes@
            == curve_beaver_share(run.triple.0.val.bytes@, run.triple.1.val@, run.triple.2.val.bytes@, g1_sum(run.peer_e.unwrap().bytes@, run.e.val.bytes@), fadd(le_value(payload@), run.d.val@), run.first),
{
    let received = complete_exchange(ch, payload);
    match Scalar::from_payload(&received) {
        None => None,
        Some(peer_d) => {
            let peer_e = run.peer_e.unwrap();
            Some(curve_mul(&run.a, &run.b, &run.triple, &peer_e, &peer_d, run.first))
        },
    }
}

/// A share-times-share pairing under way (the pairing of two points): the operands, the
/// triple it consumes, the two masks this party opens, and the peer's
/// summand of the first mask once it has come in.
pub struct PairingRun {
    pub a: MpcCurve<G1Elem>,
    pub b: MpcCurve2<G2Elem>,
    pub triple: (MpcCurve<G1Elem>, MpcCurve2<G2Elem>, MpcVal<GtElem>),
    pub e: MpcCurve<G1Elem>,
    pub d: MpcCurve2<G2Elem>,
    pub first: bool,
    pub peer_e: Option<G1Elem>,
}

impl PairingRun {
    pub open spec fn wf(&self) -> bool {
        &&& self.a.wf() && self.a.shared
        &&& self.b.wf() && self.b.shared
        &&& self.triple.0.wf() && self.triple.1.wf() && self.triple.2.wf()
        &&& self.triple.0.shared && self.triple.1.shared && self.triple.2.shared
        &&& self.e.wf() && self.e.val.bytes@ == g1_sum(self.a.val.bytes@, self.triple.0.val.bytes@)
        &&& self.d.wf() && self.d.val.bytes@ == g2_sum(self.b.val.bytes@, self.triple.1.val.bytes@)
        &&& self.peer_e.is_some() ==> self.peer_e.unwrap().wf()
    }
}

/// Starts the pairing of two shared operands: draws the triple and plans the
/// exchange of the first mask, `a + x`; one exchange.
pub fn pairing_begin(ch: &mut Channel, a: &MpcCurve<G1Elem>, b: &MpcCurve2<G2Elem>, first: bool) -> (r: (
    PairingRun,
    ExchangePlan,
))
    requires
        old(ch).connected,
        !old(ch).pending,
        has_room_for(*old(ch), 48),
        a.wf() && a.shared,
        b.wf() && b.shared,
    ensures
        r.0.wf(),
        r.0.a == *a,
        r.0.b == *b,
        r.0.first == first,
        r.0.peer_e.is_none(),
        r.1.frame@ == frame_of(r.0.e.val.bytes@),
        r.1.send_first == old(ch).talk_first,
        final(ch).pending,
        final(ch).connected,
        final(ch).talk_first == old(ch).talk_first,
        final(ch).exchanges == old(ch).exchanges + 1,
        final(ch).bytes_sent == old(ch).bytes_sent + HEADER_BYTES + 48,
        final(ch).bytes_recv == old(ch).bytes_recv,
{
    let t = pairing_triple(first);
    let e = a.add(&t.0, first);
    let d = b.add(&t.1, first);
    let out = payload48(&e.val.bytes);
    let plan = exchange_bytes(ch, &out);
    (PairingRun { a: *a, b: *b, triple: t, e, d, first, peer_e: None }, plan)
}

/// Takes the peer's summand of the first mask and plans the exchange of
/// the second, `b + y`; one more exchange. `None` where the payload is not
/// a canonical point.
pub fn pairing_step(ch: &mut Channel, run: PairingRun, payload: Vec<u8>) -> (r: Option<(
    PairingRun,
    ExchangePlan,
)>)
    requires
        run.wf(),
        run.peer_e.is_none(),
        old(ch).pending,
        old(ch).connected,
        old(ch).bytes_recv + HEADER_BYTES + payload@.len() <= usize::MAX,
        old(ch).exchanges < usize::MAX,
        old(ch).bytes_sent + HEADER_BYTES + 96 <= usize::MAX,
    ensures
        final(ch).bytes_recv == old(ch).bytes_recv + HEADER_BYTES + payload@.len(),
        final(ch).talk_first == old(ch).talk_first,
        final(ch).connected,
        r.is_some() == (payload@.len() == 48 && g1_decodes(payload@) && identity_form_ok(
            payload@,
        )),
        r.is_none() ==> !final(ch).pending && final(ch).exchanges == old(ch).exchanges
            && final(ch).bytes_sent == old(ch).bytes_sent,
        r.is_some() ==> {
            let (next, plan) = r.unwrap();
            &&& next.wf()
            &&& next.a == run.a && next.b == run.b && next.triple == run.triple
            &&& next.e == run.e && next.d == run.d && next.first == run.first
            &&& next.peer_e.is_some() && next.peer_e.unwrap().bytes@ == payload@
            &&& plan.frame@ == frame_of(run.d.val.bytes@)
            &&& plan.send_first == old(ch).talk_first
            &&& final(ch).pending
            &&& final(ch).exchanges == old(ch).exchanges + 1
            &&& final(ch).bytes_sent == old(ch).bytes_sent + HEADER_BYTES + 96
        },
{
    let received = complete_exchange(ch, payload);
    match decode_g1(&received) {
        None => None,
        Some(peer_e) => {
            let out = payload96(&run.d.val.bytes);
            let plan = exchange_bytes(ch, &out);
            Some((PairingRun { peer_e: Some(peer_e), ..run }, plan))
        },
    }
}

/// Takes the peer's summand of the second mask and finishes: this party's
/// share of the result. No further exchange. `None` where the payload is
/// malformed.
pub fn pairing_end(ch: &mut Channel, run: &PairingRun, payload: Vec<u8>) -> (r: Option<MpcVal<GtElem>>)
    requires
        run.wf(),
        run.peer_e.is_some(),
        old(ch).pending,
        old(ch).bytes_recv + HEADER_BYTES + payload@.len() <= usize::MAX,
    ensures
        !final(ch).pending,
        final(ch).connected == old(ch).connected,
        final(ch).talk_first == old(ch).talk_first,
        final(ch).exchanges == old(ch).exchanges,
        final(ch).bytes_sent == old(ch).bytes_sent,
        final(ch).bytes_recv == old(ch).bytes_recv + HEADER_BYTES + payload@.len(),
        r.is_some() == (payload@.len() == 96 && g2_decodes(payload@) && identity_form_ok(payload@)),
        r.is_some() ==> r.unwrap().wf() && r.unwrap().shared && r.unwrap().val.bytes@
            == pairing_beaver_share(run.triple.0.val.bytes@, run.triple.1.val.bytes@, run.triple.2.val.bytes@, g1_sum(run.peer_e.unwrap().bytes@, run.e.val.bytes@), g2_sum(payload@, run.d.val.bytes@), run.first),
{
    let received = complete_exchange(ch, payload);
    match decode_g2(&received) {
        None => None,
        Some(peer_d) => {
            let peer_e = run.peer_e.unwrap();
            Some(pairing(&run.a, &run.b, &run.triple, &peer_e, &peer_d, run.first))
        },
    }
}

} // verus!
