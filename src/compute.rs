//! The computations the two parties run together, as far as they are
//! decided locally: which domain a computation works in, sums, the query
//! index drawn from a transcript challenge, transforms, and the folding and
//! consistency rules of the low-degree test.
use crate::field::{
    congruent, fadd, fmul, fsub, lemma_congruent_mod, lemma_congruent_ops, le_value, modulus,
    two_adic_root, Scalar,
};
use crate::merkle::{depth, is_pow2, pow2_spec};
use vstd::arithmetic::power::pow;
use crate::groups::{g1_generator_bytes, g1_scaled, g1_sum, g2_generator_bytes, g2_scaled, g2_sum, G1Elem, G2Elem};
use crate::shared::{add_view, MpcCurve, MpcCurve2, MpcVal};
use ark_bls12_377::Fr;
use ark_ff::{FftField, Field};
use ark_poly::{EvaluationDomain, Radix2EvaluationDomain};
use ark_serialize::{CanonicalDeserialize, CanonicalSerialize};
use ark_std::UniformRand;
use rand::SeedableRng;
use vstd::bytes::{spec_u64_from_le_bytes, u64_from_le_bytes};
use vstd::prelude::*;

verus! {

/// The computations on offer.
#[derive(Clone, Copy, Debug, PartialEq, Eq, Structural)]
pub enum Computation {
    Fft,
    Sum,
    Product,
    Commit,
    Merkle,
    Fri,
    Dh,
    PairingDh,
}

/// The algebraic domain a computation works in.
#[derive(Clone, Copy, Debug, PartialEq, Eq, Structural)]
pub enum ComputationDomain {
    G1,
    G2,
    Field,
    Pairing,
}

/// A party's settings.
pub struct Opt {
    pub debug: bool,
    pub host: String,
    pub port: u16,
    pub peer_host: String,
    pub peer_port: u16,
    /// 0 for the first party, 1 for the second.
    pub party: u8,
    pub computation: Computation,
    /// Run the Diffie-Hellman demonstration in the second source group.
    pub use_g2: bool,
    pub args: Vec<u64>,
}

impl Opt {
    /// The domain of the chosen computation: the Diffie-Hellman one in the
    /// first or second source group as `use_g2` says, the pairing one in the
    /// pairing, every other in the scalar field.
    pub fn domain(&self) -> (r: ComputationDomain)
        ensures
            r == (match self.computation {
                Computation::Dh => if self.use_g2 {
                    ComputationDomain::G2
                } else {
                    ComputationDomain::G1
                },
                Computation::PairingDh => ComputationDomain::Pairing,
                _ => ComputationDomain::Field,
            }),
    {
        match self.computation {
            Computation::Dh => if self.use_g2 {
                ComputationDomain::G2
            } else {
                ComputationDomain::G1
            },
            Computation::PairingDh => ComputationDomain::Pairing,
            _ => ComputationDomain::Field,
        }
    }

    /// Whether this is the first party.
    pub fn is_first(&self) -> (r: bool)
        ensures
            r == (self.party == 0),
    {
        self.party == 0
    }
}

/// One party's view of `0 + v[0] + ... + v[n-1]`, value and tag, starting
/// from a public zero.
pub open spec fn sum_view(vs: Seq<MpcVal<Scalar>>, first: bool) -> (int, bool)
    decreases vs.len(),
{
    if vs.len() == 0 {
        (0, false)
    } else {
        let acc = sum_view(vs.drop_last(), first);
        let v = vs.last();
        (add_view(acc.0, acc.1, v.val@, v.shared, first), acc.1 || v.shared)
    }
}

/// The sum of one party's inputs, folded from a public zero with `add`.
pub fn sum_shares(vs: &Vec<MpcVal<Scalar>>, first: bool) -> (r: MpcVal<Scalar>)
    requires
        forall|k: int| 0 <= k < vs@.len() ==> (#[trigger] vs@[k]).wf(),
    ensures
        r.wf(),
        r.val@ == sum_view(vs@, first).0,
        r.shared == sum_view(vs@, first).1,
{
    let mut acc = MpcVal::from_public(Scalar::zero());
    let mut i: usize = 0;
    while i < vs.len()
        invariant
            0 <= i <= vs@.len(),
            forall|k: int| 0 <= k < vs@.len() ==> (#[trigger] vs@[k]).wf(),
            acc.wf(),
            acc.val@ == sum_view(vs@.subrange(0, i as int), first).0,
            acc.shared == sum_view(vs@.subrange(0, i as int), first).1,
        decreases vs@.len() - i,
    {
        proof {
            assert(vs@.subrange(0, i + 1).drop_last() =~= vs@.subrange(0, i as int));
        }
        acc = acc.add(&vs[i], first);
        i = i + 1;
    }
    assert(vs@.subrange(0, vs@.len() as int) =~= vs@);
    acc
}

/// The bytes of a challenge in reverse order.
pub open spec fn reversed(s: Seq<u8>) -> Seq<u8> {
    Seq::new(s.len(), |j: int| s[s.len() - 1 - j])
}

/// The position queried in a vector of length `n`: the challenge read as a
/// big-endian integer, modulo `n`.
pub fn query_index(challenge: &[u8; 8], n: usize) -> (r: usize)
    requires
        n > 0,
    ensures
        r as int == spec_u64_from_le_bytes(reversed(challenge@)) as int % n as int,
        r < n,
{
    let mut rev = [0u8; 8];
    let mut j: usize = 0;
    while j < 8
        invariant
            0 <= j <= 8,
            rev@.len() == 8,
            forall|k: int| 0 <= k < j ==> rev@[k] == challenge@[7 - k],
        decreases 8 - j,
    {
        rev[j] = challenge[7 - j];
        j = j + 1;
    }
    assert(rev@ =~= reversed(challenge@));
    let x = u64_from_le_bytes(rev.as_slice());
    (x % (n as u64)) as usize
}

/// One folding round of the low-degree test on one party's view:
/// `g[i] = f[2i] + f[2i+1] * alpha` with a public challenge `alpha`.
pub fn fri_fold(f: &Vec<MpcVal<Scalar>>, alpha: &MpcVal<Scalar>, first: bool) -> (r: Vec<
    MpcVal<Scalar>,
>)
    requires
        forall|k: int| 0 <= k < f@.len() ==> (#[trigger] f@[k]).wf(),
        alpha.wf(),
        !alpha.shared,
    ensures
        r@.len() == f@.len() / 2,
        forall|i: int|
            0 <= i < r@.len() ==> {
                &&& (#[trigger] r@[i]).wf()
                &&& r@[i].shared == (f@[2 * i].shared || f@[2 * i + 1].shared)
                &&& r@[i].val@ == add_view(
                    f@[2 * i].val@,
                    f@[2 * i].shared,
                    fmul(f@[2 * i + 1].val@, alpha.val@),
                    f@[2 * i + 1].shared,
                    first,
                )
            },
{
    let len = f.len();
    let half = len / 2;
    let mut out: Vec<MpcVal<Scalar>> = Vec::new();
    let mut i: usize = 0;
    while i < half
        invariant
            len == f@.len(),
            half == len / 2,
            0 <= i <= half,
            out@.len() == i,
            forall|k: int| 0 <= k < f@.len() ==> (#[trigger] f@[k]).wf(),
            alpha.wf(),
            !alpha.shared,
            forall|j: int|
                0 <= j < i ==> {
                    &&& (#[trigger] out@[j]).wf()
                    &&& out@[j].shared == (f@[2 * j].shared || f@[2 * j + 1].shared)
                    &&& out@[j].val@ == add_view(
                        f@[2 * j].val@,
                        f@[2 * j].shared,
                        fmul(f@[2 * j + 1].val@, alpha.val@),
                        f@[2 * j + 1].shared,
                        first,
                    )
                },
        decreases half - i,
    {
        assert(2 * i + 1 < len);
        let scaled = f[2 * i + 1].mul_local(alpha);
        let g = f[2 * i].add(&scaled, first);
        out.push(g);
        i = i + 1;
    }
    out
}

/// The positions a query at `x` of a round over `n` points reads: the point
/// `-x`, at `(n/2 + x) mod n`, and the point `x^2` of the next round, at
/// `(2x mod n) / 2`.
pub fn fri_indices(x: u64, n: u64) -> (r: (u64, u64))
    requires
        x < n,
    ensures
        r.0 as int == (n as int / 2 + x as int) % n as int,
        r.1 as int == (2 * x as int) % n as int / 2,
{
    let neg = (((n / 2) as u128 + x as u128) % (n as u128)) as u64;
    let x2 = (2 * (x as u128) % (n as u128) / 2) as u64;
    (neg, x2)
}

/// The consistency rule between two rounds: from the values at `x` and at
/// `-x` and the challenge `alpha`, the next round holds
/// `(v + w) / 2 + alpha * (v - w) / (2x)`; multiplied out,
/// `next * 2x == (v + w) * x + alpha * (v - w)`, for `x` not zero.
pub fn fri_consistent(v: &Scalar, w: &Scalar, next: &Scalar, alpha: &Scalar, x: &Scalar) -> (r:
    bool)
    requires
        v.wf(),
        w.wf(),
        next.wf(),
        alpha.wf(),
        x.wf(),
    ensures
        r == (x@ != 0 && fmul(next@, fadd(x@, x@)) == fadd(
            fmul(fadd(v@, w@), x@),
            fmul(alpha@, fsub(v@, w@)),
        )),
{
    let zero = Scalar::zero();
    if x.equals(&zero) {
        return false;
    }
    let lhs = next.mul(&x.add(x));
    let rhs = v.add(w).mul(x).add(&alpha.mul(&v.sub(w)));
    lhs.equals(&rhs)
}

/// The integers a sequence of field elements denotes.
pub open spec fn values(v: Seq<Scalar>) -> Seq<int> {
    v.map_values(|s: Scalar| s@)
}

/// `v[0] * w^(j*0) + ... + v[n-1] * w^(j*(n-1))`.
pub open spec fn dft_sum(v: Seq<int>, w: int, j: int, n: int) -> int
    decreases n,
{
    if n <= 0 {
        0
    } else {
        dft_sum(v, w, j, n - 1) + v[n - 1] * pow(w, (j * (n - 1)) as nat)
    }
}

/// The generator of the domain for `n` values: the root of unity of the
/// domain's order.
pub open spec fn domain_root(n: int) -> int {
    root_of_unity_of(domain_size(n)).unwrap()
}

/// The forward transform over the domain for `v`: `v`, padded with zeros to
/// the domain size `N`, evaluated at each power `w^j` of the domain's
/// generator: `out[j] = sum_k v[k] * w^(jk)`.
pub open spec fn fft_of(v: Seq<int>) -> Seq<int> {
    let n = v.len() as int;
    Seq::new(domain_size(n) as nat, |j: int| dft_sum(v, domain_root(n), j, n) % modulus())
}

/// The inverse transform over the domain for `v`:
/// `out[j] = N^-1 * sum_k v[k] * w^(-jk)`, with `w^-1 = w^(N-1)` and
/// `N^-1 = N^(p-2)` for the prime `p`.
pub open spec fn ifft_of(v: Seq<int>) -> Seq<int> {
    let n = v.len() as int;
    let size = domain_size(n);
    let w_inv = pow(domain_root(n), (size - 1) as nat) % modulus();
    let size_inv = pow(size, (modulus() - 2) as nat) % modulus();
    Seq::new(size as nat, |j: int| (size_inv * dft_sum(v, w_inv, j, n)) % modulus())
}

/// The size of the radix-2 domain for `n` values: the least power of two
/// that is at least `n` and at least one.
pub open spec fn domain_size(n: int) -> int {
    domain_size_from(n, 1)
}

/// The least of `p, 2p, 4p, ...` that is at least `n`.
pub open spec fn domain_size_from(n: int, p: int) -> int
    decreases (if n > p {
        n - p
    } else {
        0
    }),
{
    if p >= n || p <= 0 {
        p
    } else {
        domain_size_from(n, 2 * p)
    }
}

/// The largest domain the field offers: its multiplicative group has a
/// subgroup of order `2^47` and none of order `2^48`.
pub const MAX_DOMAIN: u64 = 0x8000_0000_0000;

/// Relies on `Radix2EvaluationDomain::new` and `ifft_in_place` of
/// `ark-poly`: `new` succeeds exactly when the domain size, the least power
/// of two at least the length, is at most `2^47`, with the root of unity of
/// that order as generator; `ifft_in_place` resizes the values to the
/// domain size and computes the inverse transform (`ifft_helper_in_place`,
/// then a product with `size_inv`).
#[verifier::external_body]
fn ifft_values(v: &Vec<Scalar>) -> (r: Option<Vec<Scalar>>)
    requires
        v@.len() <= 0x4000_0000_0000_0000,
        forall|k: int| 0 <= k < v@.len() ==> (#[trigger] v@[k]).wf(),
    ensures
        r.is_some() == (v@.len() <= MAX_DOMAIN),
        r.is_some() ==> r.unwrap()@.len() == domain_size(v@.len() as int),
        r.is_some() ==> values(r.unwrap()@) == ifft_of(values(v@)),
        r.is_some() ==> forall|k: int|
            0 <= k < r.unwrap()@.len() ==> (#[trigger] r.unwrap()@[k]).wf(),
{
    let d = Radix2EvaluationDomain::<Fr>::new(v.len())?;
    let mut xs: Vec<Fr> = v.iter().map(|s| Fr::deserialize(&s.bytes[..]).unwrap()).collect();
    d.ifft_in_place(&mut xs);
    Some(xs.iter().map(|x| {
        let mut bytes = [0u8; 32];
        x.serialize(&mut bytes[..]).unwrap();
        Scalar { bytes }
    }).collect())
}

/// Relies on `Radix2EvaluationDomain::new` and `fft_in_place` of
/// `ark-poly`, as `ifft_values` does: success exactly up to `2^47` values,
/// the result resized to the domain size.
#[verifier::external_body]
fn fft_values(v: &Vec<Scalar>) -> (r: Option<Vec<Scalar>>)
    requires
        v@.len() <= 0x4000_0000_0000_0000,
        forall|k: int| 0 <= k < v@.len() ==> (#[trigger] v@[k]).wf(),
    ensures
        r.is_some() == (v@.len() <= MAX_DOMAIN),
        r.is_some() ==> r.unwrap()@.len() == domain_size(v@.len() as int),
        r.is_some() ==> values(r.unwrap()@) == fft_of(values(v@)),
        r.is_some() ==> forall|k: int|
            0 <= k < r.unwrap()@.len() ==> (#[trigger] r.unwrap()@[k]).wf(),
{
    let d = Radix2EvaluationDomain::<Fr>::new(v.len())?;
    let mut xs: Vec<Fr> = v.iter().map(|s| Fr::deserialize(&s.bytes[..]).unwrap()).collect();
    d.fft_in_place(&mut xs);
    Some(xs.iter().map(|x| {
        let mut bytes = [0u8; 32];
        x.serialize(&mut bytes[..]).unwrap();
        Scalar { bytes }
    }).collect())
}

/// The values of one party's view.
fn share_values(vs: &Vec<MpcVal<Scalar>>) -> (r: Vec<Scalar>)
    ensures
        r@ == vs@.map_values(|v: MpcVal<Scalar>| v.val),
{
    let mut out: Vec<Scalar> = Vec::new();
    let mut i: usize = 0;
    while i < vs.len()
        invariant
            0 <= i <= vs@.len(),
            out@ == vs@.subrange(0, i as int).map_values(|v: MpcVal<Scalar>| v.val),
        decreases vs@.len() - i,
    {
        out.push(vs[i].val);
        i = i + 1;
        proof {
            assert(out@ =~= vs@.subrange(0, i as int).map_values(|v: MpcVal<Scalar>| v.val));
        }
    }
    assert(vs@.subrange(0, vs@.len() as int) =~= vs@);
    out
}

/// Tags each value with `shared`.
fn tag_all(xs: &Vec<Scalar>, shared: bool) -> (r: Vec<MpcVal<Scalar>>)
    ensures
        r@.len() == xs@.len(),
        forall|k: int|
            0 <= k < r@.len() ==> (#[trigger] r@[k]).val == xs@[k] && r@[k].shared == shared,
{
    let mut out: Vec<MpcVal<Scalar>> = Vec::new();
    let mut i: usize = 0;
    while i < xs.len()
        invariant
            0 <= i <= xs@.len(),
            out@.len() == i,
            forall|k: int|
                0 <= k < i ==> (#[trigger] out@[k]).val == xs@[k] && out@[k].shared == shared,
        decreases xs@.len() - i,
    {
        out.push(MpcVal { val: xs[i], shared });
        i = i + 1;
    }
    out
}

/// The transform of one party's view, forward or inverse, over the domain
/// of `domain_size` points. A transform is linear, so each party transforms
/// what it holds and the tags stay; all inputs carry one tag. `None` exactly
/// where the field has no domain large enough: beyond `2^47` values.
pub fn transform_shares(vs: &Vec<MpcVal<Scalar>>, shared: bool, inverse: bool) -> (r: Option<
    Vec<MpcVal<Scalar>>,
>)
    requires
        vs@.len() <= 0x4000_0000_0000_0000,
        forall|k: int| 0 <= k < vs@.len() ==> (#[trigger] vs@[k]).wf() && vs@[k].shared == shared,
    ensures
        r.is_some() == (vs@.len() <= MAX_DOMAIN),
        r.is_some() ==> r.unwrap()@.len() == domain_size(vs@.len() as int),
        r.is_some() ==> {
            let out = r.unwrap()@;
            let ins = values(vs@.map_values(|v: MpcVal<Scalar>| v.val));
            &&& values(out.map_values(|v: MpcVal<Scalar>| v.val)) == (if inverse {
                ifft_of(ins)
            } else {
                fft_of(ins)
            })
            &&& forall|k: int|
                0 <= k < out.len() ==> (#[trigger] out[k]).wf() && out[k].shared == shared
        },
{
    let xs = share_values(vs);
    assert(xs@.len() == vs@.len());
    let ys = if inverse {
        ifft_values(&xs)
    } else {
        fft_values(&xs)
    };
    match ys {
        None => None,
        Some(ys) => {
            let out = tag_all(&ys, shared);
            assert(out@.map_values(|v: MpcVal<Scalar>| v.val) =~= ys@);
            Some(out)
        },
    }
}

/// Pads one party's view with zeros, tagged `shared`, up to `size` entries.
pub fn pad_zeros(vs: &Vec<MpcVal<Scalar>>, size: usize, shared: bool) -> (r: Vec<MpcVal<Scalar>>)
    requires
        forall|k: int| 0 <= k < vs@.len() ==> (#[trigger] vs@[k]).wf(),
    ensures
        r@.len() == if vs@.len() < size {
            size as int
        } else {
            vs@.len() as int
        },
        forall|k: int| 0 <= k < vs@.len() ==> r@[k] == vs@[k],
        forall|k: int|
            vs@.len() <= k < r@.len() ==> (#[trigger] r@[k]).val@ == 0 && r@[k].shared == shared
                && r@[k].wf(),
{
    let mut out: Vec<MpcVal<Scalar>> = Vec::new();
    let mut i: usize = 0;
    while i < vs.len()
        invariant
            0 <= i <= vs@.len(),
            out@ == vs@.subrange(0, i as int),
        decreases vs@.len() - i,
    {
        out.push(vs[i]);
        i = i + 1;
        assert(out@ =~= vs@.subrange(0, i as int));
    }
    let zero = Scalar::zero();
    while out.len() < size
        invariant
            out@.len() >= vs@.len(),
            out@.len() <= if vs@.len() < size {
                size as int
            } else {
                vs@.len() as int
            },
            forall|k: int| 0 <= k < vs@.len() ==> out@[k] == vs@[k],
            forall|k: int|
                vs@.len() <= k < out@.len() ==> (#[trigger] out@[k]).val@ == 0 && out@[k].shared
                    == shared && out@[k].wf(),
            zero@ == 0,
            zero.wf(),
        decreases size - out@.len(),
    {
        out.push(MpcVal { val: zero, shared });
    }
    out
}

/// What `Fr::rand` draws from a `StdRng` seeded with `seed`.
pub uninterp spec fn sampled_scalar(seed: Seq<u8>) -> int;

/// Relies on `rand::rngs::StdRng::from_seed` and `UniformRand::rand` for
/// `Fr`: a field element that the seed determines.
#[verifier::external_body]
fn fr_sample(seed: &[u8; 32]) -> (r: Scalar)
    ensures
        r.wf(),
        r@ == sampled_scalar(seed@),
{
    let mut rng = rand::rngs::StdRng::from_seed(*seed);
    let mut bytes = [0u8; 32];
    Fr::rand(&mut rng).serialize(&mut bytes[..]).unwrap();
    Scalar { bytes }
}

/// A uniformly sampled challenge. Both parties seed alike and draw the same
/// element, so it is public.
pub fn sample_challenge(seed: &[u8; 32]) -> (r: MpcVal<Scalar>)
    ensures
        r.wf(),
        !r.shared,
        r.val@ == sampled_scalar(seed@),
{
    MpcVal::from_public(fr_sample(seed))
}

/// What `Fr::from_random_bytes` gives for at least 32 bytes: the first 32
/// read little-endian, with the three bits above the modulus's 253 cleared;
/// `None` where that is not below the modulus.
pub open spec fn from_random_bytes_of(b: Seq<u8>) -> Option<int> {
    let v = le_value(b.subrange(0, 31).push((b[31] & 0x1f) as u8));
    if v < modulus() {
        Some(v)
    } else {
        None
    }
}

/// Relies on `ark_ff::Field::from_random_bytes` for `Fr`: it masks the
/// first 32 bytes down to the modulus's 253 bits and reads them as a
/// canonical element, `None` where they are not below the modulus.
#[verifier::external_body]
fn fr_from_random_bytes(b: &[u8; 64]) -> (r: Option<Scalar>)
    ensures
        r.is_some() == from_random_bytes_of(b@).is_some(),
        r.is_some() ==> r.unwrap().wf() && r.unwrap()@ == from_random_bytes_of(b@).unwrap(),
{
    Fr::from_random_bytes(&b[..]).map(|x| {
        let mut bytes = [0u8; 32];
        x.serialize(&mut bytes[..]).unwrap();
        Scalar { bytes }
    })
}

/// The element a transcript challenge stands for; both parties read the
/// same bytes, so it is public.
pub fn challenge_scalar(b: &[u8; 64]) -> (r: Option<MpcVal<Scalar>>)
    ensures
        r.is_some() == from_random_bytes_of(b@).is_some(),
        r.is_some() ==> {
            let v = r.unwrap();
            &&& v.wf()
            &&& !v.shared
            &&& v.val@ == from_random_bytes_of(b@).unwrap()
        },
{
    match fr_from_random_bytes(b) {
        None => None,
        Some(s) => Some(MpcVal::from_public(s)),
    }
}

/// What `FftField::get_root_of_unity` gives for `n`: for `n = 2^k` with
/// `k <= 47`, the two-adic root raised to `2^(47 - k)`; otherwise `None`.
pub open spec fn root_of_unity_of(n: int) -> Option<int> {
    if n >= 1 && is_pow2(n as nat) && depth(n as nat) <= 47 {
        Some(pow(two_adic_root(), pow2_spec((47 - depth(n as nat)) as nat) as nat) % modulus())
    } else {
        None
    }
}

/// Relies on `ark_ff::FftField::get_root_of_unity` for `Fr`, whose field
/// sets no small-subgroup base: `None` unless `n` is a power of two `2^k`
/// with `k <= 47`; else `two_adic_root_of_unity` squared `47 - k` times.
#[verifier::external_body]
fn fr_root_of_unity(n: u64) -> (r: Option<Scalar>)
    requires
        1 <= n <= 0x8000_0000_0000_0000u64,
    ensures
        r.is_some() == root_of_unity_of(n as int).is_some(),
        r.is_some() ==> r.unwrap().wf() && r.unwrap()@ == root_of_unity_of(n as int).unwrap(),
{
    Fr::get_root_of_unity(n as usize).map(|x| {
        let mut bytes = [0u8; 32];
        x.serialize(&mut bytes[..]).unwrap();
        Scalar { bytes }
    })
}

/// Relies on `ark_ff::Field::pow` for `Fr`: the `e`-th power.
#[verifier::external_body]
fn fr_pow(a: &Scalar, e: u64) -> (r: Scalar)
    requires
        a.wf(),
    ensures
        r.wf(),
        r@ == pow(a@, e as nat) % modulus(),
{
    let x = Fr::deserialize(&a.bytes[..]).unwrap();
    let mut bytes = [0u8; 32];
    x.pow(&[e]).serialize(&mut bytes[..]).unwrap();
    Scalar { bytes }
}

/// The point of a round over `n` evaluations at position `i`: `w^i` for
/// the field's root of unity `w` of order `n`; `None` where there is none.
pub fn fri_point(n: u64, i: u64) -> (r: Option<Scalar>)
    requires
        1 <= n <= 0x8000_0000_0000_0000u64,
    ensures
        r.is_some() == root_of_unity_of(n as int).is_some(),
        r.is_some() ==> r.unwrap().wf() && r.unwrap()@ == pow(
            root_of_unity_of(n as int).unwrap(),
            i as nat,
        ) % modulus(),
{
    match fr_root_of_unity(n) {
        None => None,
        Some(w) => Some(fr_pow(&w, i)),
    }
}

/// The two points the Diffie-Hellman check in the first group compares,
/// on one party's view: `g * c` and `g * a + g * b`, for the public
/// generator `g`.
pub fn dh_views_g1(a: &MpcVal<Scalar>, b: &MpcVal<Scalar>, c: &MpcVal<Scalar>, first: bool) -> (r: (
    MpcCurve<G1Elem>,
    MpcCurve<G1Elem>,
))
    requires
        a.wf(),
        b.wf(),
        c.wf(),
    ensures
        r.0.wf() && r.1.wf(),
        r.0.shared == c.shared,
        r.1.shared == (a.shared || b.shared),
        r.0.val.bytes@ == g1_scaled(g1_generator_bytes(), c.val@),
        r.1.val.bytes@ == ({
            let ga = g1_scaled(g1_generator_bytes(), a.val@);
            let gb = g1_scaled(g1_generator_bytes(), b.val@);
            if a.shared == b.shared || first {
                g1_sum(ga, gb)
            } else if b.shared {
                gb
            } else {
                ga
            }
        }),
{
    let g = MpcCurve::<G1Elem>::prime_subgroup_generator();
    let ga = g.scale_local(a);
    let gb = g.scale_local(b);
    (g.scale_local(c), ga.add(&gb, first))
}

/// The same in the second group.
pub fn dh_views_g2(a: &MpcVal<Scalar>, b: &MpcVal<Scalar>, c: &MpcVal<Scalar>, first: bool) -> (r: (
    MpcCurve2<G2Elem>,
    MpcCurve2<G2Elem>,
))
    requires
        a.wf(),
        b.wf(),
        c.wf(),
    ensures
        r.0.wf() && r.1.wf(),
        r.0.shared == c.shared,
        r.1.shared == (a.shared || b.shared),
        r.0.val.bytes@ == g2_scaled(g2_generator_bytes(), c.val@),
        r.1.val.bytes@ == ({
            let ga = g2_scaled(g2_generator_bytes(), a.val@);
            let gb = g2_scaled(g2_generator_bytes(), b.val@);
            if a.shared == b.shared || first {
                g2_sum(ga, gb)
            } else if b.shared {
                gb
            } else {
                ga
            }
        }),
{
    let g = MpcCurve2::<G2Elem>::prime_subgroup_generator();
    let ga = g.scale_local(a);
    let gb = g.scale_local(b);
    (g.scale_local(c), ga.add(&gb, first))
}

/// The points the pairing check pairs, on one party's view: `g1 * a`,
/// `g2 * b` and `g1 * c`; it compares `e(g1 * a, g2 * b)` with
/// `e(g1 * c, g2)`.
pub fn pairing_dh_points(a: &MpcVal<Scalar>, b: &MpcVal<Scalar>, c: &MpcVal<Scalar>) -> (r: (
    MpcCurve<G1Elem>,
    MpcCurve2<G2Elem>,
    MpcCurve<G1Elem>,
))
    requires
        a.wf(),
        b.wf(),
        c.wf(),
    ensures
        r.0.wf() && r.1.wf() && r.2.wf(),
        r.0.shared == a.shared && r.1.shared == b.shared && r.2.shared == c.shared,
        r.0.val.bytes@ == g1_scaled(g1_generator_bytes(), a.val@),
        r.1.val.bytes@ == g2_scaled(g2_generator_bytes(), b.val@),
        r.2.val.bytes@ == g1_scaled(g1_generator_bytes(), c.val@),
{
    let g1 = MpcCurve::<G1Elem>::prime_subgroup_generator();
    let g2 = MpcCurve2::<G2Elem>::prime_subgroup_generator();
    (g1.scale_local(a), g2.scale_local(b), g1.scale_local(c))
}

/// The transform sum is linear: where `s[k]` denotes `a[k] + b[k]`, the sum
/// over `s` denotes the sum over `a` plus the sum over `b`.
proof fn lemma_dft_linear(a: Seq<int>, b: Seq<int>, s: Seq<int>, w: int, j: int, n: int)
    requires
        0 <= n <= a.len(),
        n <= b.len(),
        n <= s.len(),
        forall|k: int| 0 <= k < n ==> congruent(#[trigger] s[k], a[k] + b[k]),
    ensures
        congruent(dft_sum(s, w, j, n), dft_sum(a, w, j, n) + dft_sum(b, w, j, n)),
    decreases n,
{
    if n > 0 {
        lemma_dft_linear(a, b, s, w, j, n - 1);
        let pw = pow(w, (j * (n - 1)) as nat);
        let (da, db, ds) = (dft_sum(a, w, j, n - 1), dft_sum(b, w, j, n - 1), dft_sum(s, w, j, n - 1));
        assert(congruent(s[n - 1], a[n - 1] + b[n - 1]));
        lemma_congruent_ops(s[n - 1], pw, a[n - 1] + b[n - 1], pw);
        lemma_congruent_ops(ds, s[n - 1] * pw, da + db, (a[n - 1] + b[n - 1]) * pw);
        assert((da + db) + (a[n - 1] + b[n - 1]) * pw == (da + a[n - 1] * pw) + (db + b[n - 1]
            * pw)) by (nonlinear_arith);
    }
}

/// Scaling keeps the linearity, and the results are canonical.
proof fn lemma_scaled_linear(c: int, x: int, y: int, z: int)
    requires
        congruent(z, x + y),
    ensures
        fadd((c * x) % modulus(), (c * y) % modulus()) == (c * z) % modulus(),
{
    let m = modulus();
    lemma_congruent_mod(c * x);
    lemma_congruent_mod(c * y);
    lemma_congruent_mod((c * x) % m + (c * y) % m);
    lemma_congruent_ops((c * x) % m, (c * y) % m, c * x, c * y);
    lemma_congruent_ops(c, z, c, x + y);
    assert(c * x + c * y == c * (x + y)) by (nonlinear_arith);
    vstd::arithmetic::div_mod::lemma_mod_twice((c * x) % m + (c * y) % m, m);
    vstd::arithmetic::div_mod::lemma_mod_twice(c * z, m);
}

/// The transforms are linear, so each party may transform what it holds:
/// where two parties hold `v0` and `v1` of a shared vector of length at
/// most `2^47`, the sums of their transformed entries are the transform of
/// the opened vector, forward and inverse.
pub proof fn lemma_transform_views(v0: Seq<Scalar>, v1: Seq<Scalar>)
    requires
        v0.len() == v1.len(),
        forall|k: int| 0 <= k < v0.len() ==> (#[trigger] v0[k]).wf() && v1[k].wf(),
    ensures
        ({
            let a = values(v0);
            let b = values(v1);
            let s = Seq::new(v0.len(), |k: int| fadd(v0[k]@, v1[k]@));
            &&& forall|j: int|
                0 <= j < fft_of(s).len() ==> fadd(#[trigger] fft_of(a)[j], fft_of(b)[j])
                    == fft_of(s)[j]
            &&& forall|j: int|
                0 <= j < ifft_of(s).len() ==> fadd(#[trigger] ifft_of(a)[j], ifft_of(b)[j])
                    == ifft_of(s)[j]
        }),
{
    let a = values(v0);
    let b = values(v1);
    let s = Seq::new(v0.len(), |k: int| fadd(v0[k]@, v1[k]@));
    let n = v0.len() as int;
    assert forall|k: int| 0 <= k < n implies congruent(#[trigger] s[k], a[k] + b[k]) by {
        lemma_congruent_mod(a[k] + b[k]);
    }
    let size = domain_size(n);
    let w = domain_root(n);
    let w_inv = pow(w, (size - 1) as nat) % modulus();
    let size_inv = pow(size, (modulus() - 2) as nat) % modulus();
    assert forall|j: int| 0 <= j < fft_of(s).len() implies fadd(
        #[trigger] fft_of(a)[j],
        fft_of(b)[j],
    ) == fft_of(s)[j] by {
        lemma_dft_linear(a, b, s, w, j, n);
        lemma_scaled_linear(1, dft_sum(a, w, j, n), dft_sum(b, w, j, n), dft_sum(s, w, j, n));
    }
    assert forall|j: int| 0 <= j < ifft_of(s).len() implies fadd(
        #[trigger] ifft_of(a)[j],
        ifft_of(b)[j],
    ) == ifft_of(s)[j] by {
        lemma_dft_linear(a, b, s, w_inv, j, n);
        lemma_scaled_linear(
            size_inv,
            dft_sum(a, w_inv, j, n),
            dft_sum(b, w_inv, j, n),
            dft_sum(s, w_inv, j, n),
        );
    }
}

} // verus!
