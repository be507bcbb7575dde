use ark_bls12_377::{Fr, G1Projective, G2Projective};
use ark_ec::ProjectiveCurve;
use ark_ff::{FftField, Field};
use ark_serialize::CanonicalSerialize;
use mpc_kernel::compute::{
    challenge_scalar, fri_consistent, fri_fold, fri_indices, fri_point, pad_zeros, query_index,
    sample_challenge, transform_shares, Computation, ComputationDomain, Opt,
};
use mpc_kernel::field::Scalar;
use mpc_kernel::groups::{G1Elem, G2Elem, GtElem};
use mpc_kernel::shared::MpcVal;

fn s(n: u64) -> Scalar {
    Scalar::from_u64(n)
}

fn minus(n: u64) -> Scalar {
    s(0).sub(&s(n))
}

#[test]
fn generator_encodings() {
    let g1: [u8; 48] = [
        239, 233, 27, 178, 110, 177, 185, 234, 78, 57, 205, 255, 18, 21, 72, 213, 92, 203, 55,
        189, 200, 130, 130, 24, 187, 65, 157, 170, 44, 30, 149, 133, 84, 255, 135, 191, 37, 98,
        252, 200, 103, 10, 116, 254, 222, 72, 136, 128,
    ];
    assert_eq!(G1Elem::generator().bytes.to_vec(), g1.to_vec());
    let mut ark = [0u8; 48];
    G1Projective::prime_subgroup_generator().serialize(&mut ark[..]).unwrap();
    assert_eq!(ark.to_vec(), g1.to_vec());
    let g2: [u8; 96] = [
        150, 81, 0, 124, 143, 228, 227, 116, 2, 84, 83, 187, 82, 159, 136, 113, 155, 107, 219, 87,
        245, 1, 165, 126, 49, 80, 62, 32, 113, 240, 101, 197, 1, 29, 132, 163, 162, 48, 150, 200,
        254, 133, 199, 113, 190, 128, 132, 1, 254, 106, 161, 110, 250, 254, 107, 178, 230, 111,
        247, 191, 132, 153, 248, 92, 222, 201, 153, 7, 206, 62, 34, 231, 203, 206, 81, 102, 238,
        119, 39, 83, 213, 64, 177, 177, 81, 90, 220, 112, 49, 64, 0, 231, 64, 96, 234, 128,
    ];
    assert_eq!(G2Elem::generator().bytes.to_vec(), g2.to_vec());
    let mut ark2 = [0u8; 96];
    G2Projective::prime_subgroup_generator().serialize(&mut ark2[..]).unwrap();
    assert_eq!(ark2.to_vec(), g2.to_vec());
}

#[test]
fn field_arithmetic() {
    assert_eq!(s(2).add(&s(3)).bytes, s(5).bytes);
    assert_eq!(s(2).sub(&s(3)).bytes, minus(1).bytes);
    assert_eq!(s(6).mul(&s(7)).bytes, s(42).bytes);
    assert_eq!(s(6).neg().add(&s(6)).bytes, s(0).bytes);
    assert_ne!(s(6).neg().bytes, s(6).bytes);
    let inv = s(4).inverse().unwrap();
    assert_eq!(inv.mul(&s(4)).bytes, s(1).bytes);
    assert!(s(0).inverse().is_none());
    assert_eq!(s(42).div(&s(6)).unwrap().bytes, s(7).bytes);
    assert!(s(42).div(&s(0)).is_none());
    assert!(s(3).equals(&s(3)));
    assert!(!s(3).equals(&s(4)));
    assert_eq!(s(258).bytes[0], 2);
    assert_eq!(s(258).bytes[1], 1);
}

#[test]
fn canonical_encodings_only() {
    assert!(Scalar::from_bytes(s(9).to_bytes()).is_some());
    assert!(Scalar::from_bytes([255u8; 32]).is_none());
    let mut m1 = minus(1).to_bytes();
    assert!(Scalar::from_bytes(m1).is_some());
    // The modulus itself.
    m1[0] = m1[0].wrapping_add(1);
    assert!(Scalar::from_bytes(m1).is_none());
    assert!(Scalar::from_payload(&s(1).to_vec()).is_some());
    assert!(Scalar::from_payload(&vec![1u8; 33]).is_none());
}

#[test]
fn public_operations_stay_public() {
    let a = MpcVal::from_public(s(9));
    let b = MpcVal::from_public(s(4));
    for first in [true, false] {
        let sum = a.add(&b, first);
        let diff = a.sub(&b, first);
        let prod = a.mul_local(&b);
        assert!(!sum.shared && !diff.shared && !prod.shared);
        assert_eq!(sum.publicize_with(&s(100)).val.bytes, s(13).bytes);
        assert_eq!(diff.publicize_with(&s(100)).val.bytes, s(5).bytes);
        assert_eq!(prod.publicize_with(&s(100)).val.bytes, s(36).bytes);
    }
}

#[test]
fn public_plus_shared_is_absorbed_once() {
    // v = 5 public, w = 3 + 4 shared: v + w opens to 12, v - w to -2, w - v to 2.
    let v = MpcVal::from_public(s(5));
    let w0 = MpcVal::from_shared(s(3));
    let w1 = MpcVal::from_shared(s(4));
    let (x0, x1) = (v.add(&w0, true), v.add(&w1, false));
    assert!(x0.shared && x1.shared);
    assert_eq!(x0.publicize_with(&x1.val).val.bytes, s(12).bytes);
    let (y0, y1) = (v.sub(&w0, true), v.sub(&w1, false));
    assert_eq!(y0.publicize_with(&y1.val).val.bytes, minus(2).bytes);
    let (z0, z1) = (w0.sub(&v, true), w1.sub(&v, false));
    assert_eq!(z0.publicize_with(&z1.val).val.bytes, s(2).bytes);
    let (n0, n1) = (w0.neg(), w1.neg());
    assert_eq!(n0.publicize_with(&n1.val).val.bytes, minus(7).bytes);
    let (d0, d1) = (w0.double(), w1.double());
    assert_eq!(d0.publicize_with(&d1.val).val.bytes, s(14).bytes);
    let (m0, m1) = (w0.mul_local(&v), w1.mul_local(&v));
    assert_eq!(m0.publicize_with(&m1.val).val.bytes, s(35).bytes);
}

#[test]
fn opening_shared_and_public_values() {
    let v0 = MpcVal::from_shared(s(11));
    let v1 = MpcVal::from_shared(s(31));
    let o0 = v0.publicize_with(&v1.val);
    let o1 = v1.publicize_with(&v0.val);
    assert!(!o0.shared);
    assert_eq!(o0.val.bytes, s(42).bytes);
    assert_eq!(o1.val.bytes, s(42).bytes);
    // Opening again, or opening a public value, changes nothing.
    assert_eq!(o0.publicize_with(&s(999)).val.bytes, s(42).bytes);
}

#[test]
fn public_division_inverse_square() {
    let a = MpcVal::from_shared(s(12));
    let q = a.div_public(&MpcVal::from_public(s(4))).unwrap();
    assert!(q.shared);
    assert_eq!(q.val.bytes, s(3).bytes);
    assert!(a.div_public(&MpcVal::from_public(s(0))).is_none());
    let p = MpcVal::from_public(s(5));
    assert_eq!(p.square().val.bytes, s(25).bytes);
    assert_eq!(p.inverse().unwrap().val.mul(&s(5)).bytes, s(1).bytes);
    assert!(p.is_zero() == false);
    assert!(MpcVal::from_public(s(0)).is_zero());
    assert!(p.equals(&MpcVal::from_public(s(5))));
}

#[test]
fn sampled_challenges_are_public() {
    let seed = [7u8; 32];
    let a = sample_challenge(&seed);
    let b = sample_challenge(&seed);
    assert!(!a.shared);
    assert_eq!(a.val.bytes, b.val.bytes);
    let c = sample_challenge(&[8u8; 32]);
    assert!(!c.shared);
    assert_ne!(a.val.bytes, c.val.bytes);
}

#[test]
fn query_index_reads_big_endian() {
    assert_eq!(query_index(&[0, 0, 0, 0, 0, 0, 1, 2], 1000), 258);
    assert_eq!(query_index(&[0, 0, 0, 0, 0, 0, 1, 2], 8), 2);
    assert_eq!(query_index(&[255; 8], 7), (u64::MAX % 7) as usize);
}

#[test]
fn fri_folding_and_indices() {
    let f = vec![
        MpcVal::from_shared(s(1)),
        MpcVal::from_shared(s(2)),
        MpcVal::from_shared(s(3)),
        MpcVal::from_shared(s(4)),
    ];
    let alpha = MpcVal::from_public(s(10));
    let g = fri_fold(&f, &alpha, true);
    assert_eq!(g.len(), 2);
    assert_eq!(g[0].val.bytes, s(21).bytes);
    assert_eq!(g[1].val.bytes, s(43).bytes);
    assert!(g[0].shared);
    assert_eq!(fri_indices(3, 8), (7, 3));
    assert_eq!(fri_indices(6, 8), (2, 2));
    assert_eq!(fri_indices(0, 2), (1, 0));
}

#[test]
fn fri_consistency_rule() {
    // f(X) = c0 + c1 X with c0 = 5, c1 = 3 at x = 2: v = 11, w = -1;
    // the fold with alpha = 4 gives c0 + alpha * c1 = 17.
    let (v, w, x, alpha) = (s(11), minus(1), s(2), s(4));
    assert!(fri_consistent(&v, &w, &s(17), &alpha, &x));
    assert!(!fri_consistent(&v, &w, &s(18), &alpha, &x));
    assert!(!fri_consistent(&v, &w, &s(17), &alpha, &s(0)));
}

#[test]
fn padding_with_zeros() {
    let vs = vec![MpcVal::from_shared(s(1)), MpcVal::from_shared(s(2)), MpcVal::from_shared(s(3))];
    let p = pad_zeros(&vs, 8, true);
    assert_eq!(p.len(), 8);
    assert_eq!(p[2].val.bytes, s(3).bytes);
    assert_eq!(p[7].val.bytes, s(0).bytes);
    assert_eq!(pad_zeros(&vs, 2, true).len(), 3);
}

#[test]
fn computation_domains() {
    let mut opt = Opt {
        debug: false,
        host: "localhost".to_string(),
        port: 8000,
        peer_host: "localhost".to_string(),
        peer_port: 8001,
        party: 0,
        computation: Computation::Dh,
        use_g2: false,
        args: vec![1, 2, 3],
    };
    assert_eq!(opt.domain(), ComputationDomain::G1);
    opt.use_g2 = true;
    assert_eq!(opt.domain(), ComputationDomain::G2);
    opt.computation = Computation::PairingDh;
    assert_eq!(opt.domain(), ComputationDomain::Pairing);
    for c in [Computation::Fft, Computation::Sum, Computation::Product, Computation::Commit, Computation::Merkle, Computation::Fri] {
        opt.computation = c;
        assert_eq!(opt.domain(), ComputationDomain::Field);
    }
    assert!(opt.is_first());
}

#[test]
fn group_operations() {
    let g = G1Elem::generator();
    let two_g = g.add(&g);
    assert!(two_g.equals(&g.scale(&s(2))));
    assert!(!two_g.equals(&g));
    assert!(g.sub(&g).equals(&g.scale(&s(0))));
    assert!(g.neg().add(&g).equals(&g.scale(&s(0))));
    assert!(!g.neg().equals(&g));
    assert!(G1Elem::from_bytes(g.bytes).is_some());
    let mut bad = g.bytes;
    bad[0] ^= 1;
    assert!(G1Elem::from_bytes(bad).is_none() || !G1Elem::from_bytes(bad).unwrap().equals(&g));
    let h = G2Elem::generator();
    assert!(h.add(&h).equals(&h.scale(&s(2))));
    assert!(!h.neg().equals(&h));
    assert!(G2Elem::from_bytes(h.bytes).is_some());
    let e = GtElem::pairing(&g, &h);
    let e2 = GtElem::pairing(&two_g, &h);
    assert!(e.mul(&e).equals(&e2));
    assert!(!e.equals(&e2));
    let inv = e.inverse().unwrap();
    let one = e.mul(&inv);
    assert!(one.mul(&e).equals(&e));
    assert!(!inv.equals(&e));
    assert!(GtElem::from_bytes(e.bytes).is_some());
    let _ = Fr::from(1u64);
}

fn bytes_of(x: Fr) -> [u8; 32] {
    let mut b = [0u8; 32];
    x.serialize(&mut b[..]).unwrap();
    b
}

#[test]
fn challenges_from_random_bytes() {
    let b = [3u8; 64];
    let c = challenge_scalar(&b).unwrap();
    assert!(!c.shared);
    assert_eq!(c.val.bytes, bytes_of(Fr::from_random_bytes(&b[..]).unwrap()));
    let high = [0xffu8; 64];
    let h = challenge_scalar(&high);
    assert_eq!(h.is_some(), Fr::from_random_bytes(&high[..]).is_some());
    if let Some(h) = h {
        assert_ne!(h.val.bytes, [0xffu8; 32]);
    }
}

#[test]
fn roots_of_unity_and_powers() {
    let w = fri_point(4, 1).unwrap();
    assert_eq!(w.bytes, bytes_of(Fr::get_root_of_unity(4).unwrap()));
    let w4 = fri_point(4, 4).unwrap();
    assert_eq!(w4.bytes, s(1).bytes);
    let w2 = fri_point(4, 2).unwrap();
    assert_eq!(w2.bytes, minus(1).bytes);
    assert_eq!(fri_point(4, 3).unwrap().bytes, bytes_of(Fr::get_root_of_unity(4).unwrap().pow(&[3u64])));
    assert!(fri_point(3, 1).is_none());
}

#[test]
fn fft_field_constants() {
    let w = MpcVal::<Scalar>::two_adic_root_of_unity();
    assert!(!w.shared);
    assert_eq!(w.val.bytes, bytes_of(Fr::two_adic_root_of_unity()));
    let mut x = w.val;
    for _ in 0..47 {
        x = x.mul(&x);
    }
    assert_eq!(x.bytes, s(1).bytes);
    let g = MpcVal::<Scalar>::multiplicative_generator();
    assert!(!g.shared);
    assert_eq!(g.val.bytes, s(22).bytes);
    assert_eq!(g.val.bytes, bytes_of(Fr::multiplicative_generator()));
    assert!(!MpcVal::<Scalar>::zero().shared && !MpcVal::<Scalar>::one().shared);
    assert_eq!(MpcVal::<Scalar>::one().val.bytes, s(1).bytes);
    assert_eq!(MpcVal::<Scalar>::from_u64(9).val.bytes, s(9).bytes);
}

#[test]
fn transforms_match_the_sum_formula() {
    let v: Vec<u64> = vec![1, 2, 3];
    let shares: Vec<MpcVal<Scalar>> = v.iter().map(|x| MpcVal::from_shared(s(*x))).collect();
    let w = Fr::get_root_of_unity(4).unwrap();
    let w_inv = w.inverse().unwrap();
    let n_inv = Fr::from(4u64).inverse().unwrap();
    let fwd = transform_shares(&shares, true, false).unwrap();
    let inv = transform_shares(&shares, true, true).unwrap();
    assert_eq!(fwd.len(), 4);
    for j in 0..4u64 {
        let mut f = Fr::from(0u64);
        let mut g = Fr::from(0u64);
        for (k, x) in v.iter().enumerate() {
            f += Fr::from(*x) * w.pow(&[j * k as u64]);
            g += Fr::from(*x) * w_inv.pow(&[j * k as u64]);
        }
        assert_eq!(fwd[j as usize].val.bytes, bytes_of(f));
        assert_eq!(inv[j as usize].val.bytes, bytes_of(g * n_inv));
    }
}
