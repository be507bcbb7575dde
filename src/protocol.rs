//! Correlated randomness and the share-times-share multiplication protocol.
//!
//! A product of two shared values consumes one triple `(x, y, z)` with
//! `x * y = z` and opens two masked values, `a + x` and `b + y`. The
//! exchanges themselves are made by the caller, which hands the peer's
//! summands back in.
use crate::field::{fadd, fmul, fsub, Scalar};
use crate::shared::MpcVal;
use vstd::prelude::*;

verus! {

/// Three tagged values `(a, b, c)` with `a * b = c` over their openings.
pub type Triple<F, G, H> = (MpcVal<F>, MpcVal<G>, MpcVal<H>);

/// The summand that one party holds of every triple entry from the
/// deterministic source: one for the first party, zero for the second.
pub open spec fn stub_share(first: bool) -> int {
    if first {
        1
    } else {
        0
    }
}

/// One party's share of `a * b` at the end of the protocol, from its triple
/// shares and the opened masks `e = a + x` and `d = b + y`:
/// `z - y*e - x*d`, plus `e*d` for the first party.
pub open spec fn beaver_share(x: int, y: int, z: int, e: int, d: int, first: bool) -> int {
    let s = fsub(fsub(z, fmul(y, e)), fmul(x, d));
    if first {
        fadd(s, fmul(e, d))
    } else {
        s
    }
}

/// A triple entry as one party holds it: shared and well formed.
pub open spec fn triple_ok(t: Triple<Scalar, Scalar, Scalar>) -> bool {
    &&& t.0.shared && t.1.shared && t.2.shared
    &&& t.0.wf() && t.1.wf() && t.2.wf()
}

/// A field triple from the deterministic source. The first party's shares
/// are all one, the second party's all zero, so the openings are
/// `1 * 1 = 1`.
pub fn field_triple(first: bool) -> (r: Triple<Scalar, Scalar, Scalar>)
    ensures
        triple_ok(r),
        r.0.val@ == stub_share(first),
        r.1.val@ == stub_share(first),
        r.2.val@ == stub_share(first),
{
    let v = if first {
        Scalar::one()
    } else {
        Scalar::zero()
    };
    (MpcVal::from_shared(v), MpcVal::from_shared(v), MpcVal::from_shared(v))
}

/// The two masked values a share-times-share product opens: this party's
/// summands of `a + x` and `b + y`.
pub fn field_mul_masks(
    a: &MpcVal<Scalar>,
    b: &MpcVal<Scalar>,
    t: &Triple<Scalar, Scalar, Scalar>,
    first: bool,
) -> (r: (MpcVal<Scalar>, MpcVal<Scalar>))
    requires
        a.wf(),
        b.wf(),
        a.shared,
        b.shared,
        triple_ok(*t),
    ensures
        r.0.wf() && r.0.shared && r.0.val@ == fadd(a.val@, t.0.val@),
        r.1.wf() && r.1.shared && r.1.val@ == fadd(b.val@, t.1.val@),
{
    (a.add(&t.0, first), b.add(&t.1, first))
}

/// This party's share of `a * b` from its triple shares and the two opened
/// masks.
pub fn field_mul_finish(
    t: &Triple<Scalar, Scalar, Scalar>,
    e: &MpcVal<Scalar>,
    d: &MpcVal<Scalar>,
    first: bool,
) -> (r: MpcVal<Scalar>)
    requires
        triple_ok(*t),
        e.wf(),
        d.wf(),
        !e.shared,
        !d.shared,
    ensures
        r.wf(),
        r.shared,
        r.val@ == beaver_share(t.0.val@, t.1.val@, t.2.val@, e.val@, d.val@, first),
{
    let ye = t.1.val.mul(&e.val);
    let xd = t.0.val.mul(&d.val);
    let s = t.2.val.sub(&ye).sub(&xd);
    let val = if first {
        s.add(&e.val.mul(&d.val))
    } else {
        s
    };
    MpcVal::from_shared(val)
}

/// `a * b` on one party's view. Where both sides are shared, `t` is the
/// triple this product consumes and `peer_e`, `peer_d` are the summands the
/// peer sent back for the masks of `field_mul_masks`; otherwise those three
/// are not read and the product is local.
pub fn field_mul(
    a: &MpcVal<Scalar>,
    b: &MpcVal<Scalar>,
    t: &Triple<Scalar, Scalar, Scalar>,
    peer_e: &Scalar,
    peer_d: &Scalar,
    first: bool,
) -> (r: MpcVal<Scalar>)
    requires
        a.wf(),
        b.wf(),
        triple_ok(*t),
        peer_e.wf(),
        peer_d.wf(),
    ensures
        r.wf(),
        r.shared == (a.shared || b.shared),
        !(a.shared && b.shared) ==> r.val@ == fmul(a.val@, b.val@),
        a.shared && b.shared ==> r.val@ == beaver_share(
            t.0.val@,
            t.1.val@,
            t.2.val@,
            fadd(peer_e@, fadd(a.val@, t.0.val@)),
            fadd(peer_d@, fadd(b.val@, t.1.val@)),
            first,
        ),
{
    if a.shared && b.shared {
        let (me, md) = field_mul_masks(a, b, t, first);
        let e = me.publicize_with(peer_e);
        let d = md.publicize_with(peer_d);
        field_mul_finish(t, &e, &d, first)
    } else {
        a.mul_local(b)
    }
}

} // verus!
