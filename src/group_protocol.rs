//! The share-times-share protocols over groups: a point times a scalar, and
//! the pairing of two points. Each consumes one triple and opens two masked
//! values, whose exchanges the caller makes.
use crate::field::{fadd, Scalar};
use crate::groups::{
    g1_generator_bytes, g1_negation, g1_scaled, g1_sum, g2_generator_bytes, g2_negation, g2_scaled, g2_sum,
    gt_inverse_of, gt_product, pairing_of, G1Elem, G2Elem, GtElem,
};
use crate::protocol::{field_triple, stub_share};
use crate::shared::{MpcCurve, MpcCurve2, MpcVal};
use vstd::prelude::*;

verus! {

/// A triple for a point times a scalar: `x = g * fa`, `y = fb`, `z = g * fc`
/// from a field triple `(fa, fb, fc)` and the generator `g`.
pub fn curve_scalar_triple(first: bool) -> (r: (MpcCurve<G1Elem>, MpcVal<Scalar>, MpcCurve<G1Elem>))
    ensures
        r.0.wf() && r.1.wf() && r.2.wf(),
        r.0.shared && r.1.shared && r.2.shared,
        r.0.val.bytes@ == g1_scaled(g1_generator_bytes(), stub_share(first)),
        r.1.val@ == stub_share(first),
        r.2.val.bytes@ == g1_scaled(g1_generator_bytes(), stub_share(first)),
{
    let (fa, fb, fc) = field_triple(first);
    let g = G1Elem::generator();
    (MpcCurve::from_shared(g.scale(&fa.val)), fb, MpcCurve::from_shared(g.scale(&fc.val)))
}

/// One party's share of `a * b` at the end of the point-times-scalar
/// protocol: `z - e*y - x*d`, plus `e*d` for the first party, where `e` and
/// `d` are the opened masks `a + x` and `b + y`.
pub open spec fn curve_beaver_share(
    x: Seq<u8>,
    y: int,
    z: Seq<u8>,
    e: Seq<u8>,
    d: int,
    first: bool,
) -> Seq<u8> {
    let s = g1_sum(g1_sum(z, g1_negation(g1_scaled(e, y))), g1_negation(g1_scaled(x, d)));
    if first {
        g1_sum(s, g1_scaled(e, d))
    } else {
        s
    }
}

/// `a * b` for a point `a` and a scalar `b` on one party's view. Where both
/// are shared, `t` is the triple consumed and `peer_e`, `peer_d` are the
/// summands the peer sent back for this party's `a + x` and `b + y`;
/// otherwise the product is local and those are not read.
pub fn curve_mul(
    a: &MpcCurve<G1Elem>,
    b: &MpcVal<Scalar>,
    t: &(MpcCurve<G1Elem>, MpcVal<Scalar>, MpcCurve<G1Elem>),
    peer_e: &G1Elem,
    peer_d: &Scalar,
    first: bool,
) -> (r: MpcCurve<G1Elem>)
    requires
        a.wf(),
        b.wf(),
        t.0.wf() && t.1.wf() && t.2.wf(),
        t.0.shared && t.1.shared && t.2.shared,
        peer_e.wf(),
        peer_d.wf(),
    ensures
        r.wf(),
        r.shared == (a.shared || b.shared),
        !(a.shared && b.shared) ==> r.val.bytes@ == g1_scaled(a.val.bytes@, b.val@),
        a.shared && b.shared ==> r.val.bytes@ == curve_beaver_share(
            t.0.val.bytes@,
            t.1.val@,
            t.2.val.bytes@,
            g1_sum(peer_e.bytes@, g1_sum(a.val.bytes@, t.0.val.bytes@)),
            fadd(peer_d@, fadd(b.val@, t.1.val@)),
            first,
        ),
{
    if a.shared && b.shared {
        let e = a.add(&t.0, first).publicize_with(peer_e);
        let d = b.add(&t.1, first).publicize_with(peer_d);
        let ey = e.val.scale(&t.1.val);
        let xd = t.0.val.scale(&d.val);
        let s = t.2.val.sub(&ey).sub(&xd);
        let val = if first {
            s.add(&e.val.scale(&d.val))
        } else {
            s
        };
        MpcCurve::from_shared(val)
    } else {
        a.scale_local(b)
    }
}

/// A triple for a point of the second group times a scalar:
/// `x = g * fa`, `y = fb`, `z = g * fc` from a field triple `(fa, fb, fc)`
/// and the generator `g` of the second group.
pub fn curve2_scalar_triple(first: bool) -> (r: (MpcCurve2<G2Elem>, MpcVal<Scalar>, MpcCurve2<G2Elem>))
    ensures
        r.0.wf() && r.1.wf() && r.2.wf(),
        r.0.shared && r.1.shared && r.2.shared,
        r.0.val.bytes@ == g2_scaled(g2_generator_bytes(), stub_share(first)),
        r.1.val@ == stub_share(first),
        r.2.val.bytes@ == g2_scaled(g2_generator_bytes(), stub_share(first)),
{
    let (fa, fb, fc) = field_triple(first);
    let g = G2Elem::generator();
    (MpcCurve2::from_shared(g.scale(&fa.val)), fb, MpcCurve2::from_shared(g.scale(&fc.val)))
}

/// One party's share of `a * b` at the end of the protocol for a point of
/// the second group: `z - e*y - x*d`, plus `e*d` for the first party.
pub open spec fn curve2_beaver_share(
    x: Seq<u8>,
    y: int,
    z: Seq<u8>,
    e: Seq<u8>,
    d: int,
    first: bool,
) -> Seq<u8> {
    let s = g2_sum(g2_sum(z, g2_negation(g2_scaled(e, y))), g2_negation(g2_scaled(x, d)));
    if first {
        g2_sum(s, g2_scaled(e, d))
    } else {
        s
    }
}

/// `a * b` for a point `a` of the second group and a scalar `b` on one
/// party's view, as `curve_mul` does in the first group.
pub fn curve2_mul(
    a: &MpcCurve2<G2Elem>,
    b: &MpcVal<Scalar>,
    t: &(MpcCurve2<G2Elem>, MpcVal<Scalar>, MpcCurve2<G2Elem>),
    peer_e: &G2Elem,
    peer_d: &Scalar,
    first: bool,
) -> (r: MpcCurve2<G2Elem>)
    requires
        a.wf(),
        b.wf(),
        t.0.wf() && t.1.wf() && t.2.wf(),
        t.0.shared && t.1.shared && t.2.shared,
        peer_e.wf(),
        peer_d.wf(),
    ensures
        r.wf(),
        r.shared == (a.shared || b.shared),
        !(a.shared && b.shared) ==> r.val.bytes@ == g2_scaled(a.val.bytes@, b.val@),
        a.shared && b.shared ==> r.val.bytes@ == curve2_beaver_share(
            t.0.val.bytes@,
            t.1.val@,
            t.2.val.bytes@,
            g2_sum(peer_e.bytes@, g2_sum(a.val.bytes@, t.0.val.bytes@)),
            fadd(peer_d@, fadd(b.val@, t.1.val@)),
            first,
        ),
{
    if a.shared && b.shared {
        let e = a.add(&t.0, first).publicize_with(peer_e);
        let d = b.add(&t.1, first).publicize_with(peer_d);
        let ey = e.val.scale(&t.1.val);
        let xd = t.0.val.scale(&d.val);
        let s = t.2.val.sub(&ey).sub(&xd);
        let val = if first {
            s.add(&e.val.scale(&d.val))
        } else {
            s
        };
        MpcCurve2::from_shared(val)
    } else {
        a.scale_local(b)
    }
}

/// A triple for the pairing: `x = g1 * fa`, `y = g2 * fb` and
/// `z = e(g1 * fc, g2)` from a field triple `(fa, fb, fc)`.
pub fn pairing_triple(first: bool) -> (r: (MpcCurve<G1Elem>, MpcCurve2<G2Elem>, MpcVal<GtElem>))
    ensures
        r.0.wf() && r.1.wf() && r.2.wf(),
        r.0.shared && r.1.shared && r.2.shared,
        r.0.val.bytes@ == g1_scaled(g1_generator_bytes(), stub_share(first)),
        r.1.val.bytes@ == g2_scaled(g2_generator_bytes(), stub_share(first)),
        r.2.val.bytes@ == pairing_of(
            g1_scaled(g1_generator_bytes(), stub_share(first)),
            g2_generator_bytes(),
        ),
{
    let (fa, fb, fc) = field_triple(first);
    let g1 = G1Elem::generator();
    let g2 = G2Elem::generator();
    let z = GtElem::pairing(&g1.scale(&fc.val), &g2);
    (
        MpcCurve::from_shared(g1.scale(&fa.val)),
        MpcCurve2::from_shared(g2.scale(&fb.val)),
        MpcVal::from_shared(z),
    )
}

/// One party's factor of `e(a, b)` at the end of the pairing protocol:
/// `z * e(ea, y)^-1 * e(x, db)^-1`, times `e(ea, db)` for the first party,
/// where `ea` and `db` are the opened masks `a + x` and `b + y`.
pub open spec fn pairing_beaver_share(
    x: Seq<u8>,
    y: Seq<u8>,
    z: Seq<u8>,
    ea: Seq<u8>,
    db: Seq<u8>,
    first: bool,
) -> Seq<u8> {
    let s = gt_product(
        gt_product(z, gt_inverse_of(pairing_of(ea, y)).unwrap()),
        gt_inverse_of(pairing_of(x, db)).unwrap(),
    );
    if first {
        gt_product(s, pairing_of(ea, db))
    } else {
        s
    }
}

/// `e(a, b)` on one party's view. Where both are shared, `t` is the triple
/// consumed and `peer_e`, `peer_d` are the summands the peer sent back for
/// this party's `a + x` and `b + y`; otherwise each party pairs what it
/// holds and those are not read.
pub fn pairing(
    a: &MpcCurve<G1Elem>,
    b: &MpcCurve2<G2Elem>,
    t: &(MpcCurve<G1Elem>, MpcCurve2<G2Elem>, MpcVal<GtElem>),
    peer_e: &G1Elem,
    peer_d: &G2Elem,
    first: bool,
) -> (r: MpcVal<GtElem>)
    requires
        a.wf(),
        b.wf(),
        t.0.wf() && t.1.wf() && t.2.wf(),
        t.0.shared && t.1.shared && t.2.shared,
        peer_e.wf(),
        peer_d.wf(),
    ensures
        r.wf(),
        r.shared == (a.shared || b.shared),
        !(a.shared && b.shared) ==> r.val.bytes@ == pairing_of(a.val.bytes@, b.val.bytes@),
        a.shared && b.shared ==> r.val.bytes@ == pairing_beaver_share(
            t.0.val.bytes@,
            t.1.val.bytes@,
            t.2.val.bytes@,
            g1_sum(peer_e.bytes@, g1_sum(a.val.bytes@, t.0.val.bytes@)),
            g2_sum(peer_d.bytes@, g2_sum(b.val.bytes@, t.1.val.bytes@)),
            first,
        ),
{
    if a.shared && b.shared {
        let e = a.add(&t.0, first).publicize_with(peer_e);
        let d = b.add(&t.1, first).publicize_with(peer_d);
        let ey = GtElem::pairing(&e.val, &t.1.val);
        let xd = GtElem::pairing(&t.0.val, &d.val);
        let ey_inv = ey.inverse().unwrap();
        let xd_inv = xd.inverse().unwrap();
        let s = t.2.val.mul(&ey_inv).mul(&xd_inv);
        let val = if first {
            s.mul(&GtElem::pairing(&e.val, &d.val))
        } else {
            s
        };
        MpcVal::from_shared(val)
    } else {
        crate::shared_groups::pairing_local(a, b)
    }
}

} // verus!
