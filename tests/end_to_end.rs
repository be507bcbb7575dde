use ark_bls12_377::Fr;
use ark_poly::{EvaluationDomain, Radix2EvaluationDomain};
use ark_serialize::CanonicalSerialize;
use mpc_kernel::channel::{complete_exchange, exchange_bytes, init, stats, Channel};
use mpc_kernel::compute::{dh_views_g1, dh_views_g2, pairing_dh_points, query_index, sum_shares, transform_shares};
use mpc_kernel::field::Scalar;
use mpc_kernel::group_protocol::{
    curve2_mul, curve2_scalar_triple, curve_mul, curve_scalar_triple, pairing, pairing_triple,
};
use mpc_kernel::groups::{G1Elem, G2Elem, GtElem};
use mpc_kernel::merkle::{check_opening, commitment, merkle_tree, open_at, sibling_path};
use mpc_kernel::protocol::{field_mul, field_mul_masks, field_triple};
use mpc_kernel::session::{
    commit_begin, commit_end, curve_mul_begin, curve_mul_end, curve_mul_step, open_begin,
    open_finish, open_step, pairing_begin, pairing_end, pairing_step, product_begin, product_end,
    product_step, publicize_begin, publicize_end,
};
use mpc_kernel::shared::{MpcCurve, MpcCurve2, MpcVal};

fn s(n: u64) -> Scalar {
    Scalar::from_u64(n)
}

fn sh(n: u64) -> MpcVal<Scalar> {
    MpcVal::from_shared(s(n))
}

fn fr_bytes(x: Fr) -> [u8; 32] {
    let mut b = [0u8; 32];
    x.serialize(&mut b[..]).unwrap();
    b
}

/// Both parties multiply their shares; returns the opened product.
fn product(a0: u64, b0: u64, a1: u64, b1: u64) -> Scalar {
    let (a0, b0, a1, b1) = (sh(a0), sh(b0), sh(a1), sh(b1));
    let t0 = field_triple(true);
    let t1 = field_triple(false);
    let (e0, d0) = field_mul_masks(&a0, &b0, &t0, true);
    let (e1, d1) = field_mul_masks(&a1, &b1, &t1, false);
    let r0 = field_mul(&a0, &b0, &t0, &e1.val, &d1.val, true);
    let r1 = field_mul(&a1, &b1, &t1, &e0.val, &d0.val, false);
    assert!(r0.shared && r1.shared);
    let o0 = r0.publicize_with(&r1.val);
    let o1 = r1.publicize_with(&r0.val);
    assert_eq!(o0.val.bytes, o1.val.bytes);
    o0.val
}

#[test]
fn product_of_shared_inputs() {
    assert_eq!(product(2, 3, 7, 5).bytes, s(72).bytes);
}

#[test]
fn product_of_zero_shares() {
    assert_eq!(product(0, 0, 0, 4).bytes, s(0).bytes);
    assert_eq!(product(1, 1, 0, 0).bytes, s(1).bytes);
}

#[test]
fn sum_of_shared_vectors() {
    let vs0 = vec![sh(1), sh(0), sh(0), sh(0)];
    let vs1 = vec![sh(0), sh(1), sh(0), sh(0)];
    let r0 = sum_shares(&vs0, true);
    let r1 = sum_shares(&vs1, false);
    assert!(r0.shared && r1.shared);
    assert_eq!(r0.publicize_with(&r1.val).val.bytes, s(2).bytes);
}

#[test]
fn sum_of_empty_input_is_public_zero() {
    let r = sum_shares(&vec![], true);
    assert!(!r.shared);
    assert_eq!(r.val.bytes, s(0).bytes);
}

#[test]
fn inverse_transform_of_shared_vector() {
    let vs0 = vec![sh(1), sh(2), sh(3), sh(4)];
    let vs1 = vec![sh(0), sh(0), sh(0), sh(0)];
    let r0 = transform_shares(&vs0, true, true).unwrap();
    let r1 = transform_shares(&vs1, true, true).unwrap();
    let d = Radix2EvaluationDomain::<Fr>::new(4).unwrap();
    let mut expected: Vec<Fr> = vec![Fr::from(1u64), Fr::from(2u64), Fr::from(3u64), Fr::from(4u64)];
    d.ifft_in_place(&mut expected);
    assert_eq!(r0.len(), 4);
    for i in 0..4 {
        assert!(r0[i].shared);
        let o = r0[i].publicize_with(&r1[i].val);
        assert_eq!(o.val.bytes, fr_bytes(expected[i]));
    }
    // Three values fill a domain of four; none fill a domain of one.
    assert_eq!(transform_shares(&vec![sh(1), sh(2), sh(3)], true, true).unwrap().len(), 4);
    assert_eq!(transform_shares(&vec![], true, false).unwrap().len(), 1);
    // The transform is not the identity.
    assert_ne!(r0[1].val.bytes, s(2).bytes);
}

#[test]
fn forward_transform_inverts() {
    let vs = vec![sh(5), sh(6), sh(7), sh(8)];
    let f = transform_shares(&vs, true, false).unwrap();
    let back = transform_shares(&f, true, true).unwrap();
    for i in 0..4 {
        assert_eq!(back[i].val.bytes, vs[i].val.bytes);
    }
}

fn split(target: &[u64], mask: &[u64]) -> (Vec<MpcVal<Scalar>>, Vec<MpcVal<Scalar>>) {
    let vs1: Vec<MpcVal<Scalar>> = mask.iter().map(|m| sh(*m)).collect();
    let vs0: Vec<MpcVal<Scalar>> =
        target.iter().zip(mask.iter()).map(|(t, m)| MpcVal::from_shared(s(*t).sub(&s(*m)))).collect();
    (vs0, vs1)
}

#[test]
fn merkle_commit_open_check() {
    let target = [1u64, 2, 3, 4, 5, 6, 7, 8];
    let mask = [10u64, 20, 30, 40, 50, 60, 70, 80];
    let (vs0, vs1) = split(&target, &mask);
    let t0 = merkle_tree(&vs0);
    let t1 = merkle_tree(&vs1);
    assert_eq!(t0.key.len(), 3);
    let c0 = commitment(&t0.root, &t1.root, true);
    let c1 = commitment(&t1.root, &t0.root, false);
    assert_eq!(c0, c1);
    assert_eq!(c0.0, t0.root);
    let i = query_index(&[0, 0, 0, 0, 0, 0, 0, 13], vs0.len());
    assert_eq!(i, 5);
    let p0 = sibling_path(&t0.key, i);
    let p1 = sibling_path(&t1.key, i);
    let (v0, pf0) = open_at(&vs0, &t0.key, i, &vs1[i].val, &p1, true);
    let (v1, pf1) = open_at(&vs1, &t1.key, i, &vs0[i].val, &p0, false);
    assert_eq!(v0.val.bytes, s(6).bytes);
    assert_eq!(v1.val.bytes, s(6).bytes);
    assert!(check_opening(&c0, &pf0, i, &v0));
    assert!(check_opening(&c1, &pf1, i, &v1));
    // Every position opens and checks.
    for j in 0..8 {
        let q0 = sibling_path(&t0.key, j);
        let q1 = sibling_path(&t1.key, j);
        let (v, pf) = open_at(&vs0, &t0.key, j, &vs1[j].val, &q1, true);
        assert_eq!(v.val.bytes, s(target[j]).bytes);
        assert!(check_opening(&c0, &pf, j, &v));
        let (w, pf) = open_at(&vs1, &t1.key, j, &vs0[j].val, &q0, false);
        assert!(check_opening(&c0, &pf, j, &w));
    }
}

#[test]
fn merkle_tampering_is_rejected() {
    let target = [1u64, 2, 3, 4, 5, 6, 7, 8];
    let mask = [3u64, 1, 4, 1, 5, 9, 2, 6];
    let (vs0, vs1) = split(&target, &mask);
    let t0 = merkle_tree(&vs0);
    let t1 = merkle_tree(&vs1);
    let c = commitment(&t0.root, &t1.root, true);
    let i = 2;
    let p1 = sibling_path(&t1.key, i);
    let (v, pf) = open_at(&vs0, &t0.key, i, &vs1[i].val, &p1, true);
    assert!(check_opening(&c, &pf, i, &v));
    // A wrong claimed value.
    assert!(!check_opening(&c, &pf, i, &MpcVal::from_public(s(4))));
    // Another position.
    assert!(!check_opening(&c, &pf, 3, &v));
    // One bit of a sibling digest, of either party.
    for level in 0..3 {
        for bit in [0usize, 77, 255] {
            let (v2, mut bad) = open_at(&vs0, &t0.key, i, &vs1[i].val, &p1, true);
            bad.path[level].0[bit / 8] ^= 1 << (bit % 8);
            assert!(!check_opening(&c, &bad, i, &v2));
            let (v3, mut bad) = open_at(&vs0, &t0.key, i, &vs1[i].val, &p1, true);
            bad.path[level].1[bit / 8] ^= 1 << (bit % 8);
            assert!(!check_opening(&c, &bad, i, &v3));
        }
    }
    // Shares moved between the parties keep the sum but not the roots.
    let (v4, mut bad) = open_at(&vs0, &t0.key, i, &vs1[i].val, &p1, true);
    bad.first_share = bad.first_share.add(&s(1));
    bad.second_share = bad.second_share.sub(&s(1));
    assert!(!check_opening(&c, &bad, i, &v4));
    // A flipped bit of the commitment.
    let mut c2 = c;
    c2.1[0] ^= 1;
    assert!(!check_opening(&c2, &pf, i, &v));
}

#[test]
fn diffie_hellman_in_first_group() {
    // a = 1 + 0, b = 1 + 0, c = 2 + 0: g*a + g*b == g*c.
    let g = MpcCurve::<G1Elem>::prime_subgroup_generator();
    let mut opened = Vec::new();
    let parties = [(true, [1u64, 1, 2]), (false, [0u64, 0, 0])];
    let mut views = Vec::new();
    for (first, shares) in parties.iter() {
        let ga = g.scale_local(&sh(shares[0]));
        let gb = g.scale_local(&sh(shares[1]));
        let gc = g.scale_local(&sh(shares[2]));
        let gcc = ga.add(&gb, *first);
        assert!(gc.shared && gcc.shared);
        views.push((gc, gcc));
    }
    for k in 0..2 {
        let peer = &views[1 - k];
        let (gc, gcc) = &views[k];
        opened.push((gc.publicize_with(&peer.0.val), gcc.publicize_with(&peer.1.val)));
    }
    for (gc, gcc) in opened.iter() {
        assert!(gc.equals(gcc));
    }
    // With c = 1 the check fails.
    let wrong = g.scale_local(&MpcVal::from_public(s(1)));
    assert!(!wrong.equals(&opened[0].1));
}

#[test]
fn diffie_hellman_in_second_group() {
    let g = MpcCurve2::<G2Elem>::prime_subgroup_generator();
    let a = [sh(4), sh(1)];
    let b = [sh(2), sh(3)];
    let c = [sh(7), sh(3)];
    let mut views = Vec::new();
    for k in 0..2 {
        let first = k == 0;
        let gcc = g.scale_local(&a[k]).add(&g.scale_local(&b[k]), first);
        views.push((g.scale_local(&c[k]), gcc));
    }
    let gc = views[0].0.publicize_with(&views[1].0.val);
    let gcc = views[0].1.publicize_with(&views[1].1.val);
    assert!(gc.equals(&gcc));
}

#[test]
fn shared_point_times_shared_scalar() {
    // a = g * (3 + 2), b = 4 + 2: a * b == g * 30.
    let g = G1Elem::generator();
    let a = [MpcCurve::from_shared(g.scale(&s(3))), MpcCurve::from_shared(g.scale(&s(2)))];
    let b = [sh(4), sh(2)];
    let t = [curve_scalar_triple(true), curve_scalar_triple(false)];
    let mut masks = Vec::new();
    for k in 0..2 {
        let first = k == 0;
        masks.push((a[k].add(&t[k].0, first).val, b[k].add(&t[k].1, first).val));
    }
    let r0 = curve_mul(&a[0], &b[0], &t[0], &masks[1].0, &masks[1].1, true);
    let r1 = curve_mul(&a[1], &b[1], &t[1], &masks[0].0, &masks[0].1, false);
    let o = r0.publicize_with(&r1.val);
    assert!(o.val.equals(&g.scale(&s(30))));
}

#[test]
fn pairing_diffie_hellman() {
    // a = 2 + 1, b = 1 + 1, c = 5 + 1: e(g1*a, g2*b) == e(g1*c, g2).
    let g1 = MpcCurve::<G1Elem>::prime_subgroup_generator();
    let g2 = MpcCurve2::<G2Elem>::prime_subgroup_generator();
    let a = [sh(2), sh(1)];
    let b = [sh(1), sh(1)];
    let c = [sh(5), sh(1)];
    let pa: Vec<_> = (0..2).map(|k| g1.scale_local(&a[k])).collect();
    let pb: Vec<_> = (0..2).map(|k| g2.scale_local(&b[k])).collect();
    let t = [pairing_triple(true), pairing_triple(false)];
    let mut masks = Vec::new();
    for k in 0..2 {
        let first = k == 0;
        masks.push((pa[k].add(&t[k].0, first).val, pb[k].add(&t[k].1, first).val));
    }
    let e0 = pairing(&pa[0], &pb[0], &t[0], &masks[1].0, &masks[1].1, true);
    let e1 = pairing(&pa[1], &pb[1], &t[1], &masks[0].0, &masks[0].1, false);
    assert!(e0.shared && e1.shared);
    let gcc = e0.publicize_with(&e1.val);
    let pc: Vec<_> = (0..2).map(|k| g1.scale_local(&c[k])).collect();
    let f0 = pairing(&pc[0], &g2, &t[0], &masks[1].0, &masks[1].1, true);
    let f1 = pairing(&pc[1], &g2, &t[1], &masks[0].0, &masks[0].1, false);
    assert!(f0.shared);
    let gc = f0.publicize_with(&f1.val);
    assert!(gc.equals(&gcc));
    let wrong = pairing(&g1, &g2, &t[0], &masks[1].0, &masks[1].1, true);
    assert!(!wrong.equals(&gcc));
}

#[test]
fn exchanges_are_counted() {
    let mut ch = Channel::new();
    init(&mut ch, true);
    let payload = vec![1u8, 2, 3];
    let plan = exchange_bytes(&mut ch, &payload);
    assert!(plan.send_first);
    assert_eq!(plan.frame, vec![3, 0, 0, 0, 0, 0, 0, 0, 1, 2, 3]);
    let got = complete_exchange(&mut ch, vec![9u8; 5]);
    assert_eq!(got, vec![9u8; 5]);
    let st = stats(&ch);
    assert_eq!(st.exchanges, 1);
    assert_eq!(st.bytes_sent, 11);
    assert_eq!(st.bytes_recv, 13);
    // A share-times-share product opens two masks: two more exchanges.
    let (a, b) = (sh(2), sh(3));
    let t = field_triple(true);
    let (e, d) = field_mul_masks(&a, &b, &t, true);
    let plan = publicize_begin(&mut ch, &e);
    assert_eq!(plan.frame.len(), 40);
    let pe = publicize_end(&mut ch, &e, s(7).to_vec()).unwrap();
    let _ = publicize_begin(&mut ch, &d);
    let pd = publicize_end(&mut ch, &d, s(5).to_vec()).unwrap();
    assert!(!pe.shared && !pd.shared);
    assert_eq!(pe.val.bytes, s(10).bytes);
    assert_eq!(pd.val.bytes, s(9).bytes);
    let st = stats(&ch);
    assert_eq!(st.exchanges, 3);
    assert_eq!(st.bytes_sent, 11 + 80);
    assert_eq!(st.bytes_recv, 13 + 80);
}

#[test]
fn malformed_peer_share_is_rejected() {
    let mut ch = Channel::new();
    init(&mut ch, false);
    let v = sh(1);
    let plan = publicize_begin(&mut ch, &v);
    assert!(!plan.send_first);
    assert!(publicize_end(&mut ch, &v, vec![0u8; 31]).is_none());
    let _ = publicize_begin(&mut ch, &v);
    assert!(publicize_end(&mut ch, &v, vec![255u8; 32]).is_none());
    assert_eq!(stats(&ch).exchanges, 2);
}

#[test]
fn product_through_two_channels() {
    let mut c0 = Channel::new();
    let mut c1 = Channel::new();
    init(&mut c0, true);
    init(&mut c1, false);
    let (a0, b0, a1, b1) = (sh(2), sh(3), sh(7), sh(5));
    let (r0, p0) = product_begin(&mut c0, &a0, &b0, true);
    let (r1, p1) = product_begin(&mut c1, &a1, &b1, false);
    assert!(p0.send_first && !p1.send_first);
    let (r0, q0) = product_step(&mut c0, r0, p1.frame[8..].to_vec()).unwrap();
    let (r1, q1) = product_step(&mut c1, r1, p0.frame[8..].to_vec()).unwrap();
    let s0 = product_end(&mut c0, &r0, q1.frame[8..].to_vec()).unwrap();
    let s1 = product_end(&mut c1, &r1, q0.frame[8..].to_vec()).unwrap();
    assert!(s0.shared && s1.shared);
    assert_eq!(s0.publicize_with(&s1.val).val.bytes, s(72).bytes);
    assert_eq!(stats(&c0).exchanges, 2);
    assert_eq!(stats(&c1).exchanges, 2);
    assert_eq!(stats(&c0).bytes_sent, 80);
    assert_eq!(stats(&c1).bytes_recv, 80);
    // Opening the product is one more exchange.
    let plan = publicize_begin(&mut c0, &s0);
    let o = publicize_end(&mut c0, &s0, s1.val.to_vec()).unwrap();
    assert_eq!(plan.frame[8..].to_vec(), s0.val.to_vec());
    assert_eq!(o.val.bytes, s(72).bytes);
    assert_eq!(stats(&c0).exchanges, 3);
}

#[test]
fn product_rejects_malformed_mask() {
    let mut c0 = Channel::new();
    init(&mut c0, true);
    let (r0, _) = product_begin(&mut c0, &sh(1), &sh(1), true);
    assert!(product_step(&mut c0, r0, vec![1, 2, 3]).is_none());
    assert_eq!(stats(&c0).exchanges, 1);
}

#[test]
fn merkle_single_leaf() {
    let vs0 = vec![sh(4)];
    let vs1 = vec![sh(5)];
    let t0 = merkle_tree(&vs0);
    let t1 = merkle_tree(&vs1);
    assert!(t0.key.is_empty());
    assert_ne!(t0.root, t1.root);
    let c = commitment(&t1.root, &t0.root, false);
    assert_eq!(c, (t0.root, t1.root));
    let (v, pf) = open_at(&vs1, &t1.key, 0, &vs0[0].val, &vec![], false);
    assert_eq!(v.val.bytes, s(9).bytes);
    assert!(pf.path.is_empty());
    assert!(check_opening(&c, &pf, 0, &v));
    assert!(!check_opening(&(t1.root, t0.root), &pf, 0, &v));
}

#[test]
fn diffie_hellman_views() {
    // With a = b = c = 1 + 0, g*a + g*b
    // is 2g while g*c is g, so the check only holds once c = a + b.
    let v0 = dh_views_g1(&sh(1), &sh(1), &sh(1), true);
    let v1 = dh_views_g1(&sh(0), &sh(0), &sh(0), false);
    let gc = v0.0.publicize_with(&v1.0.val);
    let gcc = v0.1.publicize_with(&v1.1.val);
    assert!(!gc.equals(&gcc));
    let w0 = dh_views_g1(&sh(1), &sh(1), &sh(2), true);
    let gc = w0.0.publicize_with(&v1.0.val);
    assert!(gc.equals(&gcc));
    let x0 = dh_views_g2(&sh(1), &sh(1), &sh(2), true);
    let x1 = dh_views_g2(&sh(0), &sh(0), &sh(0), false);
    assert!(x0.0.publicize_with(&x1.0.val).equals(&x0.1.publicize_with(&x1.1.val)));
}

#[test]
fn pairing_check_points() {
    let (ga, gb, gc) = pairing_dh_points(&sh(2), &sh(3), &MpcVal::from_public(s(6)));
    assert!(ga.shared && gb.shared && !gc.shared);
    assert!(ga.val.equals(&G1Elem::generator().scale(&s(2))));
    assert!(gb.val.equals(&G2Elem::generator().scale(&s(3))));
    assert!(gc.val.equals(&G1Elem::generator().scale(&s(6))));
}

#[test]
fn shared_point_of_second_group_times_shared_scalar() {
    // a = h * (1 + 5), b = 3 + 4: a * b == h * 42.
    let h = G2Elem::generator();
    let a = [MpcCurve2::from_shared(h.scale(&s(1))), MpcCurve2::from_shared(h.scale(&s(5)))];
    let b = [sh(3), sh(4)];
    let t = [curve2_scalar_triple(true), curve2_scalar_triple(false)];
    let mut masks = Vec::new();
    for k in 0..2 {
        let first = k == 0;
        masks.push((a[k].add(&t[k].0, first).val, b[k].add(&t[k].1, first).val));
    }
    let r0 = curve2_mul(&a[0], &b[0], &t[0], &masks[1].0, &masks[1].1, true);
    let r1 = curve2_mul(&a[1], &b[1], &t[1], &masks[0].0, &masks[0].1, false);
    assert!(r0.shared && r1.shared);
    let o = r0.publicize_with(&r1.val);
    assert!(o.val.equals(&h.scale(&s(42))));
    // A public factor is local.
    let l = curve2_mul(&MpcCurve2::from_public(h), &sh(2), &t[0], &masks[1].0, &masks[1].1, true);
    assert!(l.shared);
    assert!(l.val.equals(&h.scale(&s(2))));
}

fn channels() -> (Channel, Channel) {
    let mut c0 = Channel::new();
    let mut c1 = Channel::new();
    init(&mut c0, true);
    init(&mut c1, false);
    (c0, c1)
}

#[test]
fn commit_and_open_through_two_channels() {
    let target = [1u64, 2, 3, 4, 5, 6, 7, 8];
    let mask = [2u64, 7, 1, 8, 2, 8, 1, 8];
    let (vs0, vs1) = split(&target, &mask);
    let (mut c0, mut c1) = channels();
    let (t0, p0) = commit_begin(&mut c0, &vs0);
    let (t1, p1) = commit_begin(&mut c1, &vs1);
    let k0 = commit_end(&mut c0, &t0.root, p1.frame[8..].to_vec(), true).unwrap();
    let k1 = commit_end(&mut c1, &t1.root, p0.frame[8..].to_vec(), false).unwrap();
    assert_eq!(k0, k1);
    assert_eq!(stats(&c0).exchanges, 1);
    let i = 6;
    let (mut r0, q0) = open_begin(&mut c0, &vs0, &t0.key, i);
    let (mut r1, q1) = open_begin(&mut c1, &vs1, &t1.key, i);
    let (mut f0, mut f1) = (q0.frame, q1.frame);
    loop {
        let (n0, m0) = open_step(&mut c0, r0, f1[8..].to_vec()).unwrap();
        let (n1, m1) = open_step(&mut c1, r1, f0[8..].to_vec()).unwrap();
        r0 = n0;
        r1 = n1;
        match (m0, m1) {
            (Some(a), Some(b)) => {
                f0 = a.frame;
                f1 = b.frame;
            }
            (None, None) => break,
            _ => panic!("the parties fell out of step"),
        }
    }
    let (v0, pf0) = open_finish(&vs0, &t0.key, &r0, true);
    let (v1, pf1) = open_finish(&vs1, &t1.key, &r1, false);
    assert_eq!(v0.val.bytes, s(7).bytes);
    assert_eq!(v1.val.bytes, s(7).bytes);
    assert!(check_opening(&k0, &pf0, i, &v0));
    assert!(check_opening(&k1, &pf1, i, &v1));
    // One exchange for the root, then one for the share and one per level.
    assert_eq!(stats(&c0).exchanges, 1 + 1 + 3);
    assert_eq!(stats(&c1).exchanges, 1 + 1 + 3);
}

#[test]
fn curve_product_through_two_channels() {
    let g = G1Elem::generator();
    let a = [MpcCurve::from_shared(g.scale(&s(3))), MpcCurve::from_shared(g.scale(&s(2)))];
    let b = [sh(4), sh(2)];
    let (mut c0, mut c1) = channels();
    let (r0, p0) = curve_mul_begin(&mut c0, &a[0], &b[0], true);
    let (r1, p1) = curve_mul_begin(&mut c1, &a[1], &b[1], false);
    let (r0, q0) = curve_mul_step(&mut c0, r0, p1.frame[8..].to_vec()).unwrap();
    let (r1, q1) = curve_mul_step(&mut c1, r1, p0.frame[8..].to_vec()).unwrap();
    let s0 = curve_mul_end(&mut c0, &r0, q1.frame[8..].to_vec()).unwrap();
    let s1 = curve_mul_end(&mut c1, &r1, q0.frame[8..].to_vec()).unwrap();
    assert!(s0.publicize_with(&s1.val).val.equals(&g.scale(&s(30))));
    assert_eq!(stats(&c0).exchanges, 2);
    assert_eq!(stats(&c1).exchanges, 2);
}

#[test]
fn pairing_through_two_channels() {
    let g1 = G1Elem::generator();
    let g2 = G2Elem::generator();
    let a = [MpcCurve::from_shared(g1.scale(&s(2))), MpcCurve::from_shared(g1.scale(&s(1)))];
    let b = [MpcCurve2::from_shared(g2.scale(&s(1))), MpcCurve2::from_shared(g2.scale(&s(1)))];
    let (mut c0, mut c1) = channels();
    let (r0, p0) = pairing_begin(&mut c0, &a[0], &b[0], true);
    let (r1, p1) = pairing_begin(&mut c1, &a[1], &b[1], false);
    let (r0, q0) = pairing_step(&mut c0, r0, p1.frame[8..].to_vec()).unwrap();
    let (r1, q1) = pairing_step(&mut c1, r1, p0.frame[8..].to_vec()).unwrap();
    let s0 = pairing_end(&mut c0, &r0, q1.frame[8..].to_vec()).unwrap();
    let s1 = pairing_end(&mut c1, &r1, q0.frame[8..].to_vec()).unwrap();
    let opened = s0.publicize_with(&s1.val);
    let expected = GtElem::pairing(&g1.scale(&s(6)), &g2);
    assert!(opened.val.equals(&expected));
    assert_eq!(stats(&c0).exchanges, 2);
    assert_eq!(stats(&c1).bytes_sent, 8 + 48 + 8 + 96);
}

#[test]
fn non_canonical_identity_is_rejected() {
    let mut canonical = [0u8; 48];
    canonical[47] = 0x40;
    let id = G1Elem::from_bytes(canonical).unwrap();
    let g = G1Elem::generator();
    assert!(id.equals(&g.sub(&g)));
    let mut other = canonical;
    other[0] = 1;
    assert!(G1Elem::from_bytes(other).is_none());
    let mut c2 = [0u8; 96];
    c2[95] = 0x40;
    assert!(G2Elem::from_bytes(c2).is_some());
    c2[3] = 9;
    assert!(G2Elem::from_bytes(c2).is_none());
}
