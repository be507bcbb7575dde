//! Fiat-Shamir transcripts, from which both parties draw the same
//! challenges, and the encodings of what goes into them.
use crate::compute::{challenge_scalar, from_random_bytes_of, query_index, reversed};
use crate::field::Scalar;
use crate::merkle::{Commitment, NodeHash, OpeningProof};
use crate::shared::MpcVal;
use vstd::bytes::{spec_u64_from_le_bytes, spec_u64_to_le_bytes, u64_to_le_bytes};
use vstd::prelude::*;

verus! {

/// The challenge bytes a merlin transcript yields: begun under `domain`,
/// given each of `messages` in turn under `label`, then asked for `len`
/// bytes under `challenge_label`.
pub uninterp spec fn fiat_shamir_of(
    domain: Seq<u8>,
    label: Seq<u8>,
    messages: Seq<Seq<u8>>,
    challenge_label: Seq<u8>,
    len: nat,
) -> Seq<u8>;

/// The byte strings of a list of messages.
pub open spec fn message_views(m: Seq<Vec<u8>>) -> Seq<Seq<u8>> {
    m.map_values(|v: Vec<u8>| v@)
}

/// Relies on `merlin::Transcript::new`, `append_message` and
/// `challenge_bytes`: the transcript is a deterministic function of the
/// labels and messages given to it, and `challenge_bytes` fills the buffer.
/// `append_message` and `challenge_bytes` panic on lengths beyond
/// `u32::MAX`.
#[verifier::external_body]
fn fiat_shamir(
    domain: &'static [u8],
    label: &'static [u8],
    messages: &Vec<Vec<u8>>,
    challenge_label: &'static [u8],
    len: usize,
) -> (r: Vec<u8>)
    requires
        len <= u32::MAX,
        forall|k: int| 0 <= k < messages@.len() ==> (#[trigger] messages@[k])@.len() <= u32::MAX,
    ensures
        r@.len() == len,
        r@ == fiat_shamir_of(domain@, label@, message_views(messages@), challenge_label@, len as nat),
{
    let mut t = merlin::Transcript::new(domain);
    for m in messages.iter() {
        t.append_message(label, m);
    }
    let mut out = vec![0u8; len];
    t.challenge_bytes(challenge_label, &mut out);
    out
}

/// The labels the transcripts use.
pub const MERKLE: [u8; 6] = [109, 101, 114, 107, 108, 101];
pub const COMMIT: [u8; 6] = [99, 111, 109, 109, 105, 116];
pub const COMMITMENT: [u8; 10] = [99, 111, 109, 109, 105, 116, 109, 101, 110, 116];
pub const CHALLENGE: [u8; 9] = [99, 104, 97, 108, 108, 101, 110, 103, 101];
pub const INPUT: [u8; 5] = [105, 110, 112, 117, 116];

/// A byte string as a length-prefixed field: its length as 8 little-endian
/// bytes, then the bytes.
pub open spec fn field_bytes(s: Seq<u8>) -> Seq<u8> {
    spec_u64_to_le_bytes(s.len() as u64) + s
}

/// The encoding of a commitment: both roots as length-prefixed fields.
pub open spec fn commitment_encoding(c: Commitment) -> Seq<u8> {
    field_bytes(c.0@) + field_bytes(c.1@)
}

/// The encoding of an opening path: its length, then each level's pair.
pub open spec fn path_levels_encoding(p: Seq<(NodeHash, NodeHash)>) -> Seq<u8>
    decreases p.len(),
{
    if p.len() == 0 {
        seq![]
    } else {
        path_levels_encoding(p.drop_last()) + field_bytes(p.last().0@) + field_bytes(p.last().1@)
    }
}

/// The encoding of an opening proof: both shares, then the path.
pub open spec fn proof_encoding(p: OpeningProof) -> Seq<u8> {
    p.first_share.bytes@ + p.second_share.bytes@ + spec_u64_to_le_bytes(p.path@.len() as u64)
        + path_levels_encoding(p.path@)
}

/// Appends `b` to `out`.
fn extend(out: &mut Vec<u8>, b: &[u8])
    ensures
        final(out)@ == old(out)@ + b@,
{
    let mut i: usize = 0;
    while i < b.len()
        invariant
            0 <= i <= b@.len(),
            out@ == old(out)@ + b@.subrange(0, i as int),
        decreases b@.len() - i,
    {
        out.push(b[i]);
        i = i + 1;
        assert(out@ =~= old(out)@ + b@.subrange(0, i as int));
    }
    assert(b@.subrange(0, b@.len() as int) =~= b@);
}

/// Appends a digest as a length-prefixed field.
fn extend_field(out: &mut Vec<u8>, h: &NodeHash)
    ensures
        final(out)@ == old(out)@ + field_bytes(h@),
{
    let len = u64_to_le_bytes(32);
    extend(out, len.as_slice());
    extend(out, h.as_slice());
    assert(final(out)@ =~= old(out)@ + field_bytes(h@));
}

/// The bytes a commitment adds to a transcript.
pub fn commitment_bytes(c: &Commitment) -> (r: Vec<u8>)
    ensures
        r@ == commitment_encoding(*c),
        r@.len() == 80,
{
    proof {
        vstd::bytes::lemma_auto_spec_u64_to_from_le_bytes();
        assert(spec_u64_to_le_bytes(32).len() == 8);
    }
    let mut out: Vec<u8> = Vec::new();
    extend_field(&mut out, &c.0);
    extend_field(&mut out, &c.1);
    assert(out@ =~= commitment_encoding(*c));
    out
}

/// The bytes an opening proof adds to a transcript.
pub fn proof_bytes(p: &OpeningProof) -> (r: Vec<u8>)
    ensures
        r@ == proof_encoding(*p),
{
    let mut out: Vec<u8> = Vec::new();
    extend(&mut out, p.first_share.bytes.as_slice());
    extend(&mut out, p.second_share.bytes.as_slice());
    let len = u64_to_le_bytes(p.path.len() as u64);
    extend(&mut out, len.as_slice());
    let ghost prefix = out@;
    let mut i: usize = 0;
    while i < p.path.len()
        invariant
            0 <= i <= p.path@.len(),
            out@ == prefix + path_levels_encoding(p.path@.subrange(0, i as int)),
        decreases p.path@.len() - i,
    {
        extend_field(&mut out, &p.path[i].0);
        extend_field(&mut out, &p.path[i].1);
        let ghost sub = p.path@.subrange(0, i + 1);
        assert(sub.drop_last() =~= p.path@.subrange(0, i as int));
        assert(out@ =~= prefix + path_levels_encoding(sub));
        i = i + 1;
    }
    assert(p.path@.subrange(0, p.path@.len() as int) =~= p.path@);
    assert(out@ =~= proof_encoding(*p));
    out
}

/// The labels of the Merkle query transcript and of its challenge.
pub open spec fn merkle_labels() -> (Seq<u8>, Seq<u8>, Seq<u8>) {
    (MERKLE@, COMMITMENT@, CHALLENGE@)
}

/// The labels of the commit transcript and of its challenge.
pub open spec fn commit_labels() -> (Seq<u8>, Seq<u8>, Seq<u8>) {
    (COMMIT@, INPUT@, CHALLENGE@)
}

/// The 8 challenge bytes a Merkle query draws from a commitment.
pub open spec fn merkle_challenge(c: Commitment) -> Seq<u8> {
    fiat_shamir_of(
        merkle_labels().0,
        merkle_labels().1,
        seq![commitment_encoding(c)],
        merkle_labels().2,
        8,
    )
}

/// Copies 8 bytes into an array.
fn to_array8(v: &Vec<u8>) -> (r: [u8; 8])
    requires
        v@.len() == 8,
    ensures
        r@ == v@,
{
    let mut a = [0u8; 8];
    let mut i: usize = 0;
    while i < 8
        invariant
            0 <= i <= 8,
            v@.len() == 8,
            a@.len() == 8,
            forall|j: int| 0 <= j < i ==> a@[j] == v@[j],
        decreases 8 - i,
    {
        a[i] = v[i];
        i = i + 1;
    }
    assert(a@ =~= v@);
    a
}

/// Copies 64 bytes into an array.
fn to_array64(v: &Vec<u8>) -> (r: [u8; 64])
    requires
        v@.len() == 64,
    ensures
        r@ == v@,
{
    let mut a = [0u8; 64];
    let mut i: usize = 0;
    while i < 64
        invariant
            0 <= i <= 64,
            v@.len() == 64,
            a@.len() == 64,
            forall|j: int| 0 <= j < i ==> a@[j] == v@[j],
        decreases 64 - i,
    {
        a[i] = v[i];
        i = i + 1;
    }
    assert(a@ =~= v@);
    a
}

/// The position a Merkle query reads: the challenge drawn from a transcript
/// that holds the commitment, read big-endian, modulo `n`. Both parties hold
/// one commitment, so both query the same position.
pub fn merkle_query(c: &Commitment, n: usize) -> (r: usize)
    requires
        n > 0,
    ensures
        r < n,
        r as int == spec_u64_from_le_bytes(reversed(merkle_challenge(*c))) as int % n as int,
{
    let bytes = commitment_bytes(c);
    let mut messages: Vec<Vec<u8>> = Vec::new();
    messages.push(bytes);
    let ghost m = messages@;
    assert(message_views(m) =~= seq![commitment_encoding(*c)]);
    let ch = fiat_shamir(&MERKLE, &COMMITMENT, &messages, &CHALLENGE, 8);
    let arr = to_array8(&ch);
    query_index(&arr, n)
}

/// The 64 challenge bytes of the commit computation over opened inputs.
pub open spec fn commit_challenge_bytes(inputs: Seq<MpcVal<Scalar>>) -> Seq<u8> {
    fiat_shamir_of(
        commit_labels().0,
        commit_labels().1,
        inputs.map_values(|v: MpcVal<Scalar>| v.val.bytes@),
        commit_labels().2,
        64,
    )
}

/// The challenge of the commit computation: drawn from a transcript that
/// holds the inputs, which are public, and read as a field element; `None`
/// where the drawn bytes are not read as one. Both parties hold the same
/// inputs, so the challenge is public.
pub fn commit_challenge(inputs: &Vec<MpcVal<Scalar>>) -> (r: Option<MpcVal<Scalar>>)
    requires
        forall|k: int| 0 <= k < inputs@.len() ==> !(#[trigger] inputs@[k]).shared,
    ensures
        r.is_some() == from_random_bytes_of(commit_challenge_bytes(inputs@)).is_some(),
        r.is_some() ==> {
            let v = r.unwrap();
            &&& v.wf()
            &&& !v.shared
            &&& v.val@ == from_random_bytes_of(commit_challenge_bytes(inputs@)).unwrap()
        },
{
    let mut messages: Vec<Vec<u8>> = Vec::new();
    let mut i: usize = 0;
    while i < inputs.len()
        invariant
            0 <= i <= inputs@.len(),
            messages@.len() == i,
            message_views(messages@) == inputs@.subrange(0, i as int).map_values(
                |v: MpcVal<Scalar>| v.val.bytes@,
            ),
            forall|k: int| 0 <= k < messages@.len() ==> (#[trigger] messages@[k])@.len() == 32,
        decreases inputs@.len() - i,
    {
        let b = inputs[i].val.to_vec();
        let ghost old_m = messages@;
        messages.push(b);
        proof {
            let target = inputs@.subrange(0, i + 1).map_values(|v: MpcVal<Scalar>| v.val.bytes@);
            let prev = inputs@.subrange(0, i as int).map_values(|v: MpcVal<Scalar>| v.val.bytes@);
            assert forall|j: int| 0 <= j < i + 1 implies #[trigger] message_views(messages@)[j]
                == target[j] by {
                if j < i {
                    assert(messages@[j] == old_m[j]);
                    assert(message_views(old_m)[j] == prev[j]);
                }
            }
            assert(message_views(messages@) =~= target);
        }
        i = i + 1;
    }
    assert(inputs@.subrange(0, inputs@.len() as int) =~= inputs@);
    let ch = fiat_shamir(&COMMIT, &INPUT, &messages, &CHALLENGE, 64);
    let arr = to_array64(&ch);
    challenge_scalar(&arr)
}

} // verus!
