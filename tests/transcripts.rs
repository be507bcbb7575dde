use ark_bls12_377::Fr;
use ark_ff::Field;
use ark_serialize::CanonicalSerialize;
use merlin::Transcript;
use mpc_kernel::compute::query_index;
use mpc_kernel::field::Scalar;
use mpc_kernel::merkle::{commitment, merkle_tree, open_at, sibling_path};
use mpc_kernel::shared::MpcVal;
use mpc_kernel::transcript::{commit_challenge, commitment_bytes, merkle_query, proof_bytes};

fn sh(n: u64) -> MpcVal<Scalar> {
    MpcVal::from_shared(Scalar::from_u64(n))
}

#[test]
fn commitment_encoding_layout() {
    let c = ([1u8; 32], [2u8; 32]);
    let b = commitment_bytes(&c);
    assert_eq!(b.len(), 80);
    assert_eq!(&b[0..8], &32u64.to_le_bytes());
    assert_eq!(&b[8..40], &[1u8; 32]);
    assert_eq!(&b[40..48], &32u64.to_le_bytes());
    assert_eq!(&b[48..80], &[2u8; 32]);
}

#[test]
fn proof_encoding_layout() {
    let vs0 = vec![sh(1), sh(2), sh(3), sh(4)];
    let vs1 = vec![sh(5), sh(6), sh(7), sh(8)];
    let t0 = merkle_tree(&vs0);
    let t1 = merkle_tree(&vs1);
    let p1 = sibling_path(&t1.key, 1);
    let (_, pf) = open_at(&vs0, &t0.key, 1, &vs1[1].val, &p1, true);
    let b = proof_bytes(&pf);
    assert_eq!(b.len(), 32 + 32 + 8 + 2 * 80);
    assert_eq!(&b[0..32], &Scalar::from_u64(2).bytes);
    assert_eq!(&b[32..64], &Scalar::from_u64(6).bytes);
    assert_eq!(&b[64..72], &2u64.to_le_bytes());
    assert_eq!(&b[72..152], &commitment_bytes(&pf.path[0])[..]);
}

#[test]
fn merkle_query_follows_the_transcript() {
    let vs0 = vec![sh(1), sh(2), sh(3), sh(4), sh(5), sh(6), sh(7), sh(8)];
    let vs1 = vec![sh(0); 8];
    let c = commitment(&merkle_tree(&vs0).root, &merkle_tree(&vs1).root, true);
    let mut t = Transcript::new(b"merkle");
    t.append_message(b"commitment", &commitment_bytes(&c));
    let mut ch = [0u8; 8];
    t.challenge_bytes(b"challenge", &mut ch);
    let i = merkle_query(&c, 8);
    assert_eq!(i, query_index(&ch, 8));
    assert_eq!(i, (u64::from_be_bytes(ch) % 8) as usize);
}

#[test]
fn commit_challenge_follows_the_transcript() {
    let opened = vec![MpcVal::from_public(Scalar::from_u64(3)), MpcVal::from_public(Scalar::from_u64(4))];
    let mut t = Transcript::new(b"commit");
    for v in opened.iter() {
        t.append_message(b"input", &v.val.bytes);
    }
    let mut ch = [0u8; 64];
    t.challenge_bytes(b"challenge", &mut ch);
    let expected = Fr::from_random_bytes(&ch);
    let c = commit_challenge(&opened);
    assert_eq!(c.is_some(), expected.is_some());
    if let (Some(c), Some(e)) = (c, expected) {
        let mut eb = [0u8; 32];
        e.serialize(&mut eb[..]).unwrap();
        assert!(!c.shared);
        assert_eq!(c.val.bytes, eb);
    }
}

#[test]
fn both_parties_query_the_same_position() {
    let vs0 = vec![sh(1), sh(2), sh(3), sh(4)];
    let vs1 = vec![sh(9), sh(9), sh(9), sh(9)];
    let r0 = merkle_tree(&vs0).root;
    let r1 = merkle_tree(&vs1).root;
    let c0 = commitment(&r0, &r1, true);
    let c1 = commitment(&r1, &r0, false);
    assert_eq!(merkle_query(&c0, 4), merkle_query(&c1, 4));
    let other = commitment(&r1, &r0, true);
    let picks: Vec<usize> = (1..64).map(|n| merkle_query(&other, n)).collect();
    let base: Vec<usize> = (1..64).map(|n| merkle_query(&c0, n)).collect();
    assert_ne!(picks, base);
}

#[test]
fn commit_challenge_of_no_inputs() {
    let mut t = Transcript::new(b"commit");
    let mut ch = [0u8; 64];
    t.challenge_bytes(b"challenge", &mut ch);
    let c = commit_challenge(&vec![]);
    assert_eq!(c.is_some(), Fr::from_random_bytes(&ch).is_some());
}
