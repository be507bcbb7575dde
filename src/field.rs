//! Elements of the BLS12-377 scalar field, held as their canonical 32-byte
//! little-endian encoding, with arithmetic delegated to `ark-ff`.
use ark_bls12_377::Fr;
use ark_ff::{FftField, Field};
use ark_serialize::{CanonicalDeserialize, CanonicalSerialize};
use vstd::prelude::*;

verus! {

/// The prime order of the BLS12-377 scalar field.
pub open spec fn modulus() -> int {
    725501752471715841 + 18446744073709551616 * (6461107452199829505 + 18446744073709551616 * (
    6968279316240510977 + 18446744073709551616 * 1345280370688173398)) as int
}

/// The field's root of unity of order `2^47`, the largest power of two
/// dividing the order of its multiplicative group.
pub open spec fn two_adic_root() -> int {
    (5147320413305080158 + 18446744073709551616 * (11191566996928196682 + 18446744073709551616 * (
    6973424315369300271 + 18446744073709551616 * 1284854061110734017))) as int
}

/// The generator of the field's multiplicative group.
pub open spec fn multiplicative_generator() -> int {
    22
}

/// The integer that a little-endian byte string denotes.
pub open spec fn le_value(s: Seq<u8>) -> int
    decreases s.len(),
{
    if s.len() == 0 {
        0
    } else {
        s[0] as int + 256 * le_value(s.subrange(1, s.len() as int))
    }
}

/// Field addition on integer representatives.
pub open spec fn fadd(a: int, b: int) -> int {
    (a + b) % modulus()
}

/// Field subtraction on integer representatives.
pub open spec fn fsub(a: int, b: int) -> int {
    (a - b) % modulus()
}

/// Field multiplication on integer representatives.
pub open spec fn fmul(a: int, b: int) -> int {
    (a * b) % modulus()
}

/// Two integers denote the same field element.
pub open spec fn congruent(a: int, b: int) -> bool {
    a % modulus() == b % modulus()
}

/// An element of the scalar field: the canonical 32-byte little-endian
/// encoding of an integer below the modulus (the layout `ark-serialize` uses).
#[derive(Clone, Copy)]
pub struct Scalar {
    pub bytes: [u8; 32],
}

impl View for Scalar {
    type V = int;

    open spec fn view(&self) -> int {
        le_value(self.bytes@)
    }
}

impl Scalar {
    /// The encoding is canonical: it denotes an integer below the modulus.
    pub open spec fn wf(&self) -> bool {
        self@ < modulus()
    }

    /// The element `n`.
    pub fn from_u64(n: u64) -> (r: Scalar)
        ensures
            r.wf(),
            r@ == n as int,
    {
        fr_from_u64(n)
    }

    /// The additive identity.
    pub fn zero() -> (r: Scalar)
        ensures
            r.wf(),
            r@ == 0,
    {
        fr_from_u64(0)
    }

    /// The multiplicative identity.
    pub fn one() -> (r: Scalar)
        ensures
            r.wf(),
            r@ == 1,
    {
        fr_from_u64(1)
    }

    /// The root of unity of order `2^47`.
    pub fn two_adic_root_of_unity() -> (r: Scalar)
        ensures
            r.wf(),
            r@ == two_adic_root(),
    {
        fr_two_adic_root()
    }

    /// The generator of the multiplicative group.
    pub fn multiplicative_generator() -> (r: Scalar)
        ensures
            r.wf(),
            r@ == multiplicative_generator(),
    {
        fr_multiplicative_generator()
    }

    /// Reads a canonical encoding; `None` where the bytes denote an integer
    /// not below the modulus.
    pub fn from_bytes(bytes: [u8; 32]) -> (r: Option<Scalar>)
        ensures
            r.is_some() == (le_value(bytes@) < modulus()),
            r.is_some() ==> r.unwrap().bytes@ == bytes@ && r.unwrap().wf(),
    {
        if fr_is_canonical(&bytes) {
            Some(Scalar { bytes })
        } else {
            None
        }
    }

    /// Reads a received payload: `None` unless it is exactly a canonical
    /// 32-byte encoding.
    pub fn from_payload(payload: &Vec<u8>) -> (r: Option<Scalar>)
        ensures
            r.is_some() == (payload@.len() == 32 && le_value(payload@) < modulus()),
            r.is_some() ==> r.unwrap().bytes@ == payload@ && r.unwrap().wf(),
    {
        if payload.len() != 32 {
            return None;
        }
        let mut bytes = [0u8; 32];
        let mut i: usize = 0;
        while i < 32
            invariant
                0 <= i <= 32,
                payload@.len() == 32,
                bytes@.len() == 32,
                forall|j: int| 0 <= j < i ==> bytes@[j] == payload@[j],
            decreases 32 - i,
        {
            bytes[i] = payload[i];
            i = i + 1;
        }
        assert(bytes@ =~= payload@);
        Scalar::from_bytes(bytes)
    }

    /// The encoding as a payload.
    pub fn to_vec(&self) -> (r: Vec<u8>)
        ensures
            r@ == self.bytes@,
    {
        let mut v: Vec<u8> = Vec::new();
        let mut i: usize = 0;
        while i < 32
            invariant
                0 <= i <= 32,
                v@ == self.bytes@.subrange(0, i as int),
            decreases 32 - i,
        {
            v.push(self.bytes[i]);
            i = i + 1;
            assert(v@ =~= self.bytes@.subrange(0, i as int));
        }
        assert(v@ =~= self.bytes@);
        v
    }

    /// The 32-byte encoding.
    pub fn to_bytes(&self) -> (r: [u8; 32])
        ensures
            r@ == self.bytes@,
    {
        self.bytes
    }

    /// Equality of field elements.
    pub fn equals(&self, other: &Scalar) -> (r: bool)
        ensures
            r == (self@ == other@),
    {
        let mut i: usize = 0;
        while i < 32
            invariant
                0 <= i <= 32,
                forall|j: int| 0 <= j < i ==> self.bytes@[j] == other.bytes@[j],
            decreases 32 - i,
        {
            if self.bytes[i] != other.bytes[i] {
                proof {
                    if self@ == other@ {
                        lemma_le_value_injective(self.bytes@, other.bytes@);
                    }
                }
                return false;
            }
            i = i + 1;
        }
        assert(self.bytes@ =~= other.bytes@);
        true
    }

    /// `self + other`.
    pub fn add(&self, other: &Scalar) -> (r: Scalar)
        requires
            self.wf(),
            other.wf(),
        ensures
            r.wf(),
            r@ == fadd(self@, other@),
    {
        fr_add(self, other)
    }

    /// `self - other`.
    pub fn sub(&self, other: &Scalar) -> (r: Scalar)
        requires
            self.wf(),
            other.wf(),
        ensures
            r.wf(),
            r@ == fsub(self@, other@),
    {
        fr_sub(self, other)
    }

    /// `-self`.
    pub fn neg(&self) -> (r: Scalar)
        requires
            self.wf(),
        ensures
            r.wf(),
            r@ == fsub(0, self@),
    {
        fr_neg(self)
    }

    /// `self * other`.
    pub fn mul(&self, other: &Scalar) -> (r: Scalar)
        requires
            self.wf(),
            other.wf(),
        ensures
            r.wf(),
            r@ == fmul(self@, other@),
    {
        fr_mul(self, other)
    }

    /// The multiplicative inverse, `None` for zero.
    pub fn inverse(&self) -> (r: Option<Scalar>)
        requires
            self.wf(),
        ensures
            r.is_some() == (self@ != 0),
            r.is_some() ==> r.unwrap().wf() && fmul(self@, r.unwrap()@) == 1,
    {
        fr_inverse(self)
    }

    /// `self / other`, `None` where `other` is zero.
    pub fn div(&self, other: &Scalar) -> (r: Option<Scalar>)
        requires
            self.wf(),
            other.wf(),
        ensures
            r.is_some() == (other@ != 0),
            r.is_some() ==> r.unwrap().wf() && fmul(r.unwrap()@, other@) == self@,
    {
        match fr_inverse(other) {
            None => None,
            Some(inv) => {
                let q = fr_mul(self, &inv);
                proof {
                    lemma_le_value_nonneg(self.bytes@);
                    lemma_div_mul(self@, other@, inv@);
                }
                Some(q)
            },
        }
    }
}

/// Two byte strings of one length that denote the same integer are equal.
pub proof fn lemma_le_value_injective(s: Seq<u8>, t: Seq<u8>)
    requires
        s.len() == t.len(),
        le_value(s) == le_value(t),
    ensures
        s == t,
    decreases s.len(),
{
    if s.len() > 0 {
        let rs = s.subrange(1, s.len() as int);
        let rt = t.subrange(1, t.len() as int);
        lemma_le_value_nonneg(rs);
        lemma_le_value_nonneg(rt);
        vstd::arithmetic::div_mod::lemma_fundamental_div_mod_converse(
            le_value(s),
            256,
            le_value(rs),
            s[0] as int,
        );
        vstd::arithmetic::div_mod::lemma_fundamental_div_mod_converse(
            le_value(t),
            256,
            le_value(rt),
            t[0] as int,
        );
        lemma_le_value_injective(rs, rt);
        assert(s =~= seq![s[0]].add(rs));
        assert(t =~= seq![t[0]].add(rt));
    }
}

/// A little-endian byte string denotes a non-negative integer.
pub proof fn lemma_le_value_nonneg(s: Seq<u8>)
    ensures
        le_value(s) >= 0,
    decreases s.len(),
{
    if s.len() > 0 {
        lemma_le_value_nonneg(s.subrange(1, s.len() as int));
    }
}

/// `a * inv == 1` makes `(b * inv) * a` equal to `b`, for `b` below the modulus.
proof fn lemma_div_mul(b: int, a: int, inv: int)
    requires
        0 <= b < modulus(),
        fmul(a, inv) == 1,
    ensures
        fmul(fmul(b, inv), a) == b,
{
    let m = modulus();
    vstd::arithmetic::div_mod::lemma_mul_mod_noop_left(b * inv, a, m);
    assert((b * inv) * a == b * (a * inv)) by (nonlinear_arith);
    vstd::arithmetic::div_mod::lemma_mul_mod_noop_right(b, a * inv, m);
    vstd::arithmetic::div_mod::lemma_small_mod(b as nat, m as nat);
}

/// Congruence is kept by addition, subtraction and multiplication.
pub proof fn lemma_congruent_ops(a: int, b: int, c: int, d: int)
    requires
        congruent(a, c),
        congruent(b, d),
    ensures
        congruent(a + b, c + d),
        congruent(a - b, c - d),
        congruent(a * b, c * d),
{
    let m = modulus();
    vstd::arithmetic::div_mod::lemma_add_mod_noop(a, b, m);
    vstd::arithmetic::div_mod::lemma_add_mod_noop(c, d, m);
    vstd::arithmetic::div_mod::lemma_sub_mod_noop(a, b, m);
    vstd::arithmetic::div_mod::lemma_sub_mod_noop(c, d, m);
    vstd::arithmetic::div_mod::lemma_mul_mod_noop(a, b, m);
    vstd::arithmetic::div_mod::lemma_mul_mod_noop(c, d, m);
}

/// Reducing modulo the field's prime keeps the element.
pub proof fn lemma_congruent_mod(a: int)
    ensures
        congruent(a % modulus(), a),
{
    vstd::arithmetic::div_mod::lemma_mod_twice(a, modulus());
}

/// Relies on `ark_serialize::CanonicalDeserialize::deserialize` for `Fr`:
/// 32 little-endian bytes are accepted exactly when they denote an integer
/// below the modulus.
#[verifier::external_body]
fn fr_is_canonical(bytes: &[u8; 32]) -> (r: bool)
    ensures
        r == (le_value(bytes@) < modulus()),
{
    Fr::deserialize(&bytes[..]).is_ok()
}

/// Relies on `From<u64>` for `Fr`: the element `n`.
#[verifier::external_body]
fn fr_from_u64(n: u64) -> (r: Scalar)
    ensures
        r.wf(),
        r@ == n as int,
{
    let mut bytes = [0u8; 32];
    Fr::from(n).serialize(&mut bytes[..]).unwrap();
    Scalar { bytes }
}

/// Relies on `Add` for `Fr`: addition modulo the field's prime.
#[verifier::external_body]
fn fr_add(a: &Scalar, b: &Scalar) -> (r: Scalar)
    requires
        a.wf(),
        b.wf(),
    ensures
        r.wf(),
        r@ == fadd(a@, b@),
{
    let x = Fr::deserialize(&a.bytes[..]).unwrap();
    let y = Fr::deserialize(&b.bytes[..]).unwrap();
    let mut bytes = [0u8; 32];
    (x + y).serialize(&mut bytes[..]).unwrap();
    Scalar { bytes }
}

/// Relies on `Sub` for `Fr`: subtraction modulo the field's prime.
#[verifier::external_body]
fn fr_sub(a: &Scalar, b: &Scalar) -> (r: Scalar)
    requires
        a.wf(),
        b.wf(),
    ensures
        r.wf(),
        r@ == fsub(a@, b@),
{
    let x = Fr::deserialize(&a.bytes[..]).unwrap();
    let y = Fr::deserialize(&b.bytes[..]).unwrap();
    let mut bytes = [0u8; 32];
    (x - y).serialize(&mut bytes[..]).unwrap();
    Scalar { bytes }
}

/// Relies on `Neg` for `Fr`: the additive inverse modulo the field's prime.
#[verifier::external_body]
fn fr_neg(a: &Scalar) -> (r: Scalar)
    requires
        a.wf(),
    ensures
        r.wf(),
        r@ == fsub(0, a@),
{
    let x = Fr::deserialize(&a.bytes[..]).unwrap();
    let mut bytes = [0u8; 32];
    (-x).serialize(&mut bytes[..]).unwrap();
    Scalar { bytes }
}

/// Relies on `Mul` for `Fr`: multiplication modulo the field's prime.
#[verifier::external_body]
fn fr_mul(a: &Scalar, b: &Scalar) -> (r: Scalar)
    requires
        a.wf(),
        b.wf(),
    ensures
        r.wf(),
        r@ == fmul(a@, b@),
{
    let x = Fr::deserialize(&a.bytes[..]).unwrap();
    let y = Fr::deserialize(&b.bytes[..]).unwrap();
    let mut bytes = [0u8; 32];
    (x * y).serialize(&mut bytes[..]).unwrap();
    Scalar { bytes }
}

/// Relies on `ark_ff::Field::inverse` for `Fr`: `None` for zero, else the
/// element whose product with the argument is one.
#[verifier::external_body]
fn fr_inverse(a: &Scalar) -> (r: Option<Scalar>)
    requires
        a.wf(),
    ensures
        r.is_some() == (a@ != 0),
        r.is_some() ==> r.unwrap().wf() && fmul(a@, r.unwrap()@) == 1,
{
    let x = Fr::deserialize(&a.bytes[..]).unwrap();
    x.inverse().map(|y| {
        let mut bytes = [0u8; 32];
        y.serialize(&mut bytes[..]).unwrap();
        Scalar { bytes }
    })
}

/// Relies on `ark_ff::FftField::two_adic_root_of_unity` for `Fr`, the
/// constant `TWO_ADIC_ROOT_OF_UNITY` of `ark-bls12-377` (in Montgomery form
/// there).
#[verifier::external_body]
fn fr_two_adic_root() -> (r: Scalar)
    ensures
        r.wf(),
        r@ == two_adic_root(),
{
    let mut bytes = [0u8; 32];
    Fr::two_adic_root_of_unity().serialize(&mut bytes[..]).unwrap();
    Scalar { bytes }
}

/// Relies on `ark_ff::FftField::multiplicative_generator` for `Fr`, the
/// constant `GENERATOR = 22` of `ark-bls12-377`.
#[verifier::external_body]
fn fr_multiplicative_generator() -> (r: Scalar)
    ensures
        r.wf(),
        r@ == multiplicative_generator(),
{
    let mut bytes = [0u8; 32];
    Fr::multiplicative_generator().serialize(&mut bytes[..]).unwrap();
    Scalar { bytes }
}

} // verus!
