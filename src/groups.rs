//! Points of the two source groups and elements of the target group of the
//! BLS12-377 pairing, held as their encodings, with the group
//! operations and the pairing delegated to `ark-bls12-377`.
use crate::field::Scalar;
use ark_bls12_377::{Bls12_377, Fq12, Fr, G1Projective, G2Projective};
use ark_ec::{PairingEngine, ProjectiveCurve};
use ark_ff::Field;
use ark_serialize::{CanonicalDeserialize, CanonicalSerialize};
use vstd::prelude::*;

verus! {

/// The identity flag (bit 6 of the last byte) is set only in the canonical
/// encoding of the identity: all bytes zero but that flag.
pub open spec fn identity_form_ok(b: Seq<u8>) -> bool {
    let last = b.len() - 1;
    (b[last] & 0x40u8) == 0 || (b[last] == 0x40u8 && forall|j: int| 0 <= j < last ==> b[j] == 0)
}

/// A point of the first source group, held as its compressed encoding.
#[derive(Clone, Copy)]
pub struct G1Elem {
    pub bytes: [u8; 48],
}

/// `b` is the compressed encoding of a point of the prime-order subgroup.
pub uninterp spec fn g1_decodes(b: Seq<u8>) -> bool;

/// The encoding of the sum of two points.
pub uninterp spec fn g1_sum(a: Seq<u8>, b: Seq<u8>) -> Seq<u8>;

/// The encoding of the negation of a point.
pub uninterp spec fn g1_negation(a: Seq<u8>) -> Seq<u8>;

/// The encoding of a point multiplied by the scalar `k`.
pub uninterp spec fn g1_scaled(a: Seq<u8>, k: int) -> Seq<u8>;

/// The encoding of the generator of the prime-order subgroup.
pub open spec fn g1_generator_bytes() -> Seq<u8> {
    seq![
        239, 233, 27, 178, 110, 177, 185, 234, 78, 57, 205, 255,
        18, 21, 72, 213, 92, 203, 55, 189, 200, 130, 130, 24,
        187, 65, 157, 170, 44, 30, 149, 133, 84, 255, 135, 191,
        37, 98, 252, 200, 103, 10, 116, 254, 222, 72, 136, 128,
    ]
}

impl G1Elem {
    pub open spec fn wf(&self) -> bool {
        g1_decodes(self.bytes@)
    }

    /// Reads an encoding; `None` unless it encodes a point of the
    /// prime-order subgroup in its one canonical form. The decoder also takes
    /// any bytes behind the infinity flag as the identity; of those only the
    /// all-zero form with the flag alone is accepted here.
    pub fn from_bytes(bytes: [u8; 48]) -> (r: Option<G1Elem>)
        ensures
            r.is_some() == (g1_decodes(bytes@) && identity_form_ok(bytes@)),
            r.is_some() ==> r.unwrap().bytes@ == bytes@,
    {
        if !g1_check(&bytes) {
            return None;
        }
        if bytes[47] & 0x40 == 0 {
            return Some(G1Elem { bytes });
        }
        if bytes[47] != 0x40 {
            return None;
        }
        let mut i: usize = 0;
        while i < 47
            invariant
                0 <= i <= 47,
                bytes@.len() == 48,
                bytes@[47] == 0x40u8,
                forall|j: int| 0 <= j < i ==> bytes@[j] == 0,
            decreases 47 - i,
        {
            if bytes[i] != 0 {
                proof {
                    assert(0x40u8 & 0x40u8 == 0x40u8) by (bit_vector);
                    assert(bytes@[i as int] != 0);
                }
                return None;
            }
            i = i + 1;
        }
        Some(G1Elem { bytes })
    }

    /// The generator of the prime-order subgroup.
    pub fn generator() -> (r: G1Elem)
        ensures
            r.wf(),
            r.bytes@ == g1_generator_bytes(),
    {
        g1_generator()
    }

    /// Equality of encodings. The encodings this crate makes, and those
    /// `from_bytes` accepts, are canonical (one per point), so on them this
    /// is equality of points.
    pub fn equals(&self, other: &G1Elem) -> (r: bool)
        ensures
            r == (self.bytes@ == other.bytes@),
    {
        let mut i: usize = 0;
        while i < 48
            invariant
                0 <= i <= 48,
                forall|j: int| 0 <= j < i ==> self.bytes@[j] == other.bytes@[j],
            decreases 48 - i,
        {
            if self.bytes[i] != other.bytes[i] {
                return false;
            }
            i = i + 1;
        }
        assert(self.bytes@ =~= other.bytes@);
        true
    }

    /// `self + other`.
    pub fn add(&self, other: &G1Elem) -> (r: G1Elem)
        requires
            self.wf(),
            other.wf(),
        ensures
            r.wf(),
            r.bytes@ == g1_sum(self.bytes@, other.bytes@),
    {
        g1_add(self, other)
    }

    /// `-self`.
    pub fn neg(&self) -> (r: G1Elem)
        requires
            self.wf(),
        ensures
            r.wf(),
            r.bytes@ == g1_negation(self.bytes@),
    {
        g1_neg(self)
    }

    /// `self - other`, as `self + (-other)`.
    pub fn sub(&self, other: &G1Elem) -> (r: G1Elem)
        requires
            self.wf(),
            other.wf(),
        ensures
            r.wf(),
            r.bytes@ == g1_sum(self.bytes@, g1_negation(other.bytes@)),
    {
        self.add(&other.neg())
    }

    /// `self * k`.
    pub fn scale(&self, k: &Scalar) -> (r: G1Elem)
        requires
            self.wf(),
            k.wf(),
        ensures
            r.wf(),
            r.bytes@ == g1_scaled(self.bytes@, k@),
    {
        g1_mul(self, k)
    }
}

/// Relies on `CanonicalDeserialize::deserialize` for `G1Projective`: it accepts
/// exactly the compressed encodings of points of the prime-order subgroup.
#[verifier::external_body]
fn g1_check(bytes: &[u8; 48]) -> (r: bool)
    ensures
        r == g1_decodes(bytes@),
{
    G1Projective::deserialize(&bytes[..]).is_ok()
}

/// Relies on `ProjectiveCurve::prime_subgroup_generator` for `G1Projective` and
/// its compressed serialisation.
#[verifier::external_body]
fn g1_generator() -> (r: G1Elem)
    ensures
        g1_decodes(r.bytes@),
        r.bytes@ == g1_generator_bytes(),
{
    let mut bytes = [0u8; 48];
    G1Projective::prime_subgroup_generator().serialize(&mut bytes[..]).unwrap();
    G1Elem { bytes }
}

/// Relies on `Add` for `G1Projective`: the group law, whose result is again a
/// point of the subgroup.
#[verifier::external_body]
fn g1_add(a: &G1Elem, b: &G1Elem) -> (r: G1Elem)
    requires
        g1_decodes(a.bytes@),
        g1_decodes(b.bytes@),
    ensures
        g1_decodes(r.bytes@),
        r.bytes@ == g1_sum(a.bytes@, b.bytes@),
{
    let x = G1Projective::deserialize(&a.bytes[..]).unwrap();
    let y = G1Projective::deserialize(&b.bytes[..]).unwrap();
    let mut bytes = [0u8; 48];
    (x + y).serialize(&mut bytes[..]).unwrap();
    G1Elem { bytes }
}

/// Relies on `Neg` for `G1Projective`: the inverse in the group.
#[verifier::external_body]
fn g1_neg(a: &G1Elem) -> (r: G1Elem)
    requires
        g1_decodes(a.bytes@),
    ensures
        g1_decodes(r.bytes@),
        r.bytes@ == g1_negation(a.bytes@),
{
    let x = G1Projective::deserialize(&a.bytes[..]).unwrap();
    let mut bytes = [0u8; 48];
    (-x).serialize(&mut bytes[..]).unwrap();
    G1Elem { bytes }
}

/// Relies on `MulAssign<Fr>` for `G1Projective`: multiplication of a point by a
/// scalar.
#[verifier::external_body]
fn g1_mul(a: &G1Elem, k: &Scalar) -> (r: G1Elem)
    requires
        g1_decodes(a.bytes@),
        k.wf(),
    ensures
        g1_decodes(r.bytes@),
        r.bytes@ == g1_scaled(a.bytes@, k@),
{
    let mut x = G1Projective::deserialize(&a.bytes[..]).unwrap();
    x *= Fr::deserialize(&k.bytes[..]).unwrap();
    let mut bytes = [0u8; 48];
    x.serialize(&mut bytes[..]).unwrap();
    G1Elem { bytes }
}

/// A point of the second source group, held as its compressed encoding.
#[derive(Clone, Copy)]
pub struct G2Elem {
    pub bytes: [u8; 96],
}

/// `b` is the compressed encoding of a point of the prime-order subgroup.
pub uninterp spec fn g2_decodes(b: Seq<u8>) -> bool;

/// The encoding of the sum of two points.
pub uninterp spec fn g2_sum(a: Seq<u8>, b: Seq<u8>) -> Seq<u8>;

/// The encoding of the negation of a point.
pub uninterp spec fn g2_negation(a: Seq<u8>) -> Seq<u8>;

/// The encoding of a point multiplied by the scalar `k`.
pub uninterp spec fn g2_scaled(a: Seq<u8>, k: int) -> Seq<u8>;

/// The encoding of the generator of the prime-order subgroup.
pub open spec fn g2_generator_bytes() -> Seq<u8> {
    seq![
        150, 81, 0, 124, 143, 228, 227, 116, 2, 84, 83, 187,
        82, 159, 136, 113, 155, 107, 219, 87, 245, 1, 165, 126,
        49, 80, 62, 32, 113, 240, 101, 197, 1, 29, 132, 163,
        162, 48, 150, 200, 254, 133, 199, 113, 190, 128, 132, 1,
        254, 106, 161, 110, 250, 254, 107, 178, 230, 111, 247, 191,
        132, 153, 248, 92, 222, 201, 153, 7, 206, 62, 34, 231,
        203, 206, 81, 102, 238, 119, 39, 83, 213, 64, 177, 177,
        81, 90, 220, 112, 49, 64, 0, 231, 64, 96, 234, 128,
    ]
}

impl G2Elem {
    pub open spec fn wf(&self) -> bool {
        g2_decodes(self.bytes@)
    }

    /// Reads an encoding; `None` unless it encodes a point of the
    /// prime-order subgroup in its one canonical form. The decoder also takes
    /// any bytes behind the infinity flag as the identity; of those only the
    /// all-zero form with the flag alone is accepted here.
    pub fn from_bytes(bytes: [u8; 96]) -> (r: Option<G2Elem>)
        ensures
            r.is_some() == (g2_decodes(bytes@) && identity_form_ok(bytes@)),
            r.is_some() ==> r.unwrap().bytes@ == bytes@,
    {
        if !g2_check(&bytes) {
            return None;
        }
        if bytes[95] & 0x40 == 0 {
            return Some(G2Elem { bytes });
        }
        if bytes[95] != 0x40 {
            return None;
        }
        let mut i: usize = 0;
        while i < 95
            invariant
                0 <= i <= 95,
                bytes@.len() == 96,
                bytes@[95] == 0x40u8,
                forall|j: int| 0 <= j < i ==> bytes@[j] == 0,
            decreases 95 - i,
        {
            if bytes[i] != 0 {
                proof {
                    assert(0x40u8 & 0x40u8 == 0x40u8) by (bit_vector);
                    assert(bytes@[i as int] != 0);
                }
                return None;
            }
            i = i + 1;
        }
        Some(G2Elem { bytes })
    }

    /// The generator of the prime-order subgroup.
    pub fn generator() -> (r: G2Elem)
        ensures
            r.wf(),
            r.bytes@ == g2_generator_bytes(),
    {
        g2_generator()
    }

    /// Equality of encodings. The encodings this crate makes, and those
    /// `from_bytes` accepts, are canonical (one per point), so on them this
    /// is equality of points.
    pub fn equals(&self, other: &G2Elem) -> (r: bool)
        ensures
            r == (self.bytes@ == other.bytes@),
    {
        let mut i: usize = 0;
        while i < 96
            invariant
                0 <= i <= 96,
                forall|j: int| 0 <= j < i ==> self.bytes@[j] == other.bytes@[j],
            decreases 96 - i,
        {
            if self.bytes[i] != other.bytes[i] {
                return false;
            }
            i = i + 1;
        }
        assert(self.bytes@ =~= other.bytes@);
        true
    }

    /// `self + other`.
    pub fn add(&self, other: &G2Elem) -> (r: G2Elem)
        requires
            self.wf(),
            other.wf(),
        ensures
            r.wf(),
            r.bytes@ == g2_sum(self.bytes@, other.bytes@),
    {
        g2_add(self, other)
    }

    /// `-self`.
    pub fn neg(&self) -> (r: G2Elem)
        requires
            self.wf(),
        ensures
            r.wf(),
            r.bytes@ == g2_negation(self.bytes@),
    {
        g2_neg(self)
    }

    /// `self - other`, as `self + (-other)`.
    pub fn sub(&self, other: &G2Elem) -> (r: G2Elem)
        requires
            self.wf(),
            other.wf(),
        ensures
            r.wf(),
            r.bytes@ == g2_sum(self.bytes@, g2_negation(other.bytes@)),
    {
        self.add(&other.neg())
    }

    /// `self * k`.
    pub fn scale(&self, k: &Scalar) -> (r: G2Elem)
        requires
            self.wf(),
            k.wf(),
        ensures
            r.wf(),
            r.bytes@ == g2_scaled(self.bytes@, k@),
    {
        g2_mul(self, k)
    }
}

/// Relies on `CanonicalDeserialize::deserialize` for `G2Projective`: it accepts
/// exactly the compressed encodings of points of the prime-order subgroup.
#[verifier::external_body]
fn g2_check(bytes: &[u8; 96]) -> (r: bool)
    ensures
        r == g2_decodes(bytes@),
{
    G2Projective::deserialize(&bytes[..]).is_ok()
}

/// Relies on `ProjectiveCurve::prime_subgroup_generator` for `G2Projective` and
/// its compressed serialisation.
#[verifier::external_body]
fn g2_generator() -> (r: G2Elem)
    ensures
        g2_decodes(r.bytes@),
        r.bytes@ == g2_generator_bytes(),
{
    let mut bytes = [0u8; 96];
    G2Projective::prime_subgroup_generator().serialize(&mut bytes[..]).unwrap();
    G2Elem { bytes }
}

/// Relies on `Add` for `G2Projective`: the group law, whose result is again a
/// point of the subgroup.
#[verifier::external_body]
fn g2_add(a: &G2Elem, b: &G2Elem) -> (r: G2Elem)
    requires
        g2_decodes(a.bytes@),
        g2_decodes(b.bytes@),
    ensures
        g2_decodes(r.bytes@),
        r.bytes@ == g2_sum(a.bytes@, b.bytes@),
{
    let x = G2Projective::deserialize(&a.bytes[..]).unwrap();
    let y = G2Projective::deserialize(&b.bytes[..]).unwrap();
    let mut bytes = [0u8; 96];
    (x + y).serialize(&mut bytes[..]).unwrap();
    G2Elem { bytes }
}

/// Relies on `Neg` for `G2Projective`: the inverse in the group.
#[verifier::external_body]
fn g2_neg(a: &G2Elem) -> (r: G2Elem)
    requires
        g2_decodes(a.bytes@),
    ensures
        g2_decodes(r.bytes@),
        r.bytes@ == g2_negation(a.bytes@),
{
    let x = G2Projective::deserialize(&a.bytes[..]).unwrap();
    let mut bytes = [0u8; 96];
    (-x).serialize(&mut bytes[..]).unwrap();
    G2Elem { bytes }
}

/// Relies on `MulAssign<Fr>` for `G2Projective`: multiplication of a point by a
/// scalar.
#[verifier::external_body]
fn g2_mul(a: &G2Elem, k: &Scalar) -> (r: G2Elem)
    requires
        g2_decodes(a.bytes@),
        k.wf(),
    ensures
        g2_decodes(r.bytes@),
        r.bytes@ == g2_scaled(a.bytes@, k@),
{
    let mut x = G2Projective::deserialize(&a.bytes[..]).unwrap();
    x *= Fr::deserialize(&k.bytes[..]).unwrap();
    let mut bytes = [0u8; 96];
    x.serialize(&mut bytes[..]).unwrap();
    G2Elem { bytes }
}

/// An element of the target group, held as its 576-byte encoding.
#[derive(Clone, Copy)]
pub struct GtElem {
    pub bytes: [u8; 576],
}

/// `b` encodes an element of the degree-12 extension field.
pub uninterp spec fn gt_decodes(b: Seq<u8>) -> bool;

/// The encoding of the product of two elements.
pub uninterp spec fn gt_product(a: Seq<u8>, b: Seq<u8>) -> Seq<u8>;

/// The encoding of the inverse of an element, where it has one.
pub uninterp spec fn gt_inverse_of(a: Seq<u8>) -> Option<Seq<u8>>;

/// The encoding of the pairing of two points.
pub uninterp spec fn pairing_of(p: Seq<u8>, q: Seq<u8>) -> Seq<u8>;

impl GtElem {
    pub open spec fn wf(&self) -> bool {
        gt_decodes(self.bytes@)
    }

    /// Reads an encoding; `None` unless it encodes a field element.
    pub fn from_bytes(bytes: [u8; 576]) -> (r: Option<GtElem>)
        ensures
            r.is_some() == gt_decodes(bytes@),
            r.is_some() ==> r.unwrap().bytes@ == bytes@,
    {
        if gt_check(&bytes) {
            Some(GtElem { bytes })
        } else {
            None
        }
    }

    /// Equality of elements: their canonical encodings agree.
    pub fn equals(&self, other: &GtElem) -> (r: bool)
        ensures
            r == (self.bytes@ == other.bytes@),
    {
        let mut i: usize = 0;
        while i < 576
            invariant
                0 <= i <= 576,
                forall|j: int| 0 <= j < i ==> self.bytes@[j] == other.bytes@[j],
            decreases 576 - i,
        {
            if self.bytes[i] != other.bytes[i] {
                return false;
            }
            i = i + 1;
        }
        assert(self.bytes@ =~= other.bytes@);
        true
    }

    /// `self * other`.
    pub fn mul(&self, other: &GtElem) -> (r: GtElem)
        requires
            self.wf(),
            other.wf(),
        ensures
            r.wf(),
            r.bytes@ == gt_product(self.bytes@, other.bytes@),
    {
        gt_mul(self, other)
    }

    /// The inverse; `None` where there is none.
    pub fn inverse(&self) -> (r: Option<GtElem>)
        requires
            self.wf(),
        ensures
            r.is_some() == gt_inverse_of(self.bytes@).is_some(),
            r.is_some() ==> r.unwrap().wf() && r.unwrap().bytes@ == gt_inverse_of(
                self.bytes@,
            ).unwrap(),
    {
        gt_inverse(self)
    }

    /// The pairing of a point of the first and a point of the second group.
    pub fn pairing(p: &G1Elem, q: &G2Elem) -> (r: GtElem)
        requires
            p.wf(),
            q.wf(),
        ensures
            r.wf(),
            gt_inverse_of(r.bytes@).is_some(),
            r.bytes@ == pairing_of(p.bytes@, q.bytes@),
    {
        bls_pairing(p, q)
    }
}

/// Relies on `CanonicalDeserialize::deserialize` for `Fq12`: it accepts
/// exactly the encodings of field elements.
#[verifier::external_body]
fn gt_check(bytes: &[u8; 576]) -> (r: bool)
    ensures
        r == gt_decodes(bytes@),
{
    Fq12::deserialize(&bytes[..]).is_ok()
}

/// Relies on `Mul` for `Fq12`.
#[verifier::external_body]
fn gt_mul(a: &GtElem, b: &GtElem) -> (r: GtElem)
    requires
        gt_decodes(a.bytes@),
        gt_decodes(b.bytes@),
    ensures
        gt_decodes(r.bytes@),
        r.bytes@ == gt_product(a.bytes@, b.bytes@),
{
    let x = Fq12::deserialize(&a.bytes[..]).unwrap();
    let y = Fq12::deserialize(&b.bytes[..]).unwrap();
    let mut bytes = [0u8; 576];
    (x * y).serialize(&mut bytes[..]).unwrap();
    GtElem { bytes }
}

/// Relies on `ark_ff::Field::inverse` for `Fq12`: `None` exactly for an
/// element without an inverse.
#[verifier::external_body]
fn gt_inverse(a: &GtElem) -> (r: Option<GtElem>)
    requires
        gt_decodes(a.bytes@),
    ensures
        r.is_some() == gt_inverse_of(a.bytes@).is_some(),
        r.is_some() ==> gt_decodes(r.unwrap().bytes@) && r.unwrap().bytes@ == gt_inverse_of(
            a.bytes@,
        ).unwrap(),
{
    let x = Fq12::deserialize(&a.bytes[..]).unwrap();
    x.inverse().map(|y| {
        let mut bytes = [0u8; 576];
        y.serialize(&mut bytes[..]).unwrap();
        GtElem { bytes }
    })
}

/// Relies on `PairingEngine::pairing` for `Bls12_377`: the value lies in
/// the target group, whose elements are invertible.
#[verifier::external_body]
fn bls_pairing(p: &G1Elem, q: &G2Elem) -> (r: GtElem)
    requires
        g1_decodes(p.bytes@),
        g2_decodes(q.bytes@),
    ensures
        gt_decodes(r.bytes@),
        gt_inverse_of(r.bytes@).is_some(),
        r.bytes@ == pairing_of(p.bytes@, q.bytes@),
{
    let x = G1Projective::deserialize(&p.bytes[..]).unwrap();
    let y = G2Projective::deserialize(&q.bytes[..]).unwrap();
    let mut bytes = [0u8; 576];
    Bls12_377::pairing(x, y).serialize(&mut bytes[..]).unwrap();
    GtElem { bytes }
}

} // verus!
