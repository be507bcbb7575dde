//! What holds of two parties' views together.
use crate::field::{
    congruent, fadd, fmul, fsub, lemma_congruent_mod, lemma_congruent_ops, lemma_le_value_nonneg,
    modulus, Scalar,
};
use crate::compute::sum_view;
use crate::protocol::{beaver_share, stub_share};
use crate::shared::{add_view, consistent, opened, publicized, sub_view, MpcVal};
use vstd::prelude::*;

verus! {

/// Two field results that denote the same element are equal.
proof fn lemma_canonical_eq(x: int, y: int)
    requires
        congruent(x, y),
        0 <= x < modulus(),
        0 <= y < modulus(),
    ensures
        x == y,
{
    vstd::arithmetic::div_mod::lemma_small_mod(x as nat, modulus() as nat);
    vstd::arithmetic::div_mod::lemma_small_mod(y as nat, modulus() as nat);
}

/// Each field operation denotes the integer operation on its arguments.
proof fn lemma_field_ops(a: int, b: int)
    ensures
        congruent(fadd(a, b), a + b),
        congruent(fsub(a, b), a - b),
        congruent(fmul(a, b), a * b),
        0 <= fadd(a, b) < modulus(),
        0 <= fsub(a, b) < modulus(),
        0 <= fmul(a, b) < modulus(),
{
    lemma_congruent_mod(a + b);
    lemma_congruent_mod(a - b);
    lemma_congruent_mod(a * b);
}

/// The element a field value denotes is canonical.
proof fn lemma_scalar_range(s: Scalar)
    requires
        s.wf(),
    ensures
        0 <= s@ < modulus(),
{
    lemma_le_value_nonneg(s.bytes@);
}

/// Opening a public value leaves it as it is, on either party and whatever
/// the peer sent; so opening is idempotent: an opened value is public, and
/// opening it again changes nothing.
pub proof fn lemma_publicize_public(v: MpcVal<Scalar>, peer: int, peer2: int)
    requires
        v.wf(),
        !v.shared,
    ensures
        publicized(v, peer) == v.val@,
        publicized(v, peer) == publicized(v, peer2),
{
}

/// Opening a value shared as `v0` and `v1` gives both parties the same
/// public value, `v0 + v1`.
pub proof fn lemma_publicize_shared(v0: Scalar, v1: Scalar)
    requires
        v0.wf(),
        v1.wf(),
    ensures
        publicized(MpcVal { val: v0, shared: true }, v1@) == fadd(v0@, v1@),
        publicized(MpcVal { val: v1, shared: true }, v0@) == fadd(v0@, v1@),
        opened(MpcVal { val: v0, shared: true }, MpcVal { val: v1, shared: true }) == fadd(
            v0@,
            v1@,
        ),
{
    assert(v1@ + v0@ == v0@ + v1@);
}

/// On public operands sum, difference and product are computed locally and
/// stay public; opening them gives `a + b`, `a - b` and `a * b`, whatever
/// the peer sends.
pub proof fn lemma_public_ops(a: Scalar, b: Scalar, first: bool, peer: int)
    requires
        a.wf(),
        b.wf(),
    ensures
        add_view(a@, false, b@, false, first) == fadd(a@, b@),
        sub_view(a@, false, b@, false, first) == fsub(a@, b@),
        forall|r: Scalar|
            r@ == fadd(a@, b@) ==> publicized(MpcVal { val: r, shared: false }, peer) == fadd(
                a@,
                b@,
            ),
        forall|r: Scalar|
            r@ == fsub(a@, b@) ==> publicized(MpcVal { val: r, shared: false }, peer) == fsub(
                a@,
                b@,
            ),
        forall|r: Scalar|
            r@ == fmul(a@, b@) ==> publicized(MpcVal { val: r, shared: false }, peer) == fmul(
                a@,
                b@,
            ),
{
}

/// Addition on the two parties' views yields views of the sum: whatever the
/// tags, the results agree in tag, and open to the sum of the openings.
pub proof fn lemma_add_views(
    a0: MpcVal<Scalar>,
    a1: MpcVal<Scalar>,
    b0: MpcVal<Scalar>,
    b1: MpcVal<Scalar>,
    r0: Scalar,
    r1: Scalar,
)
    requires
        consistent(a0, a1),
        consistent(b0, b1),
        r0.wf(),
        r1.wf(),
        r0@ == add_view(a0.val@, a0.shared, b0.val@, b0.shared, true),
        r1@ == add_view(a1.val@, a1.shared, b1.val@, b1.shared, false),
    ensures
        ({
            let s = a0.shared || b0.shared;
            let v0 = MpcVal { val: r0, shared: s };
            let v1 = MpcVal { val: r1, shared: s };
            consistent(v0, v1) && opened(v0, v1) == fadd(opened(a0, a1), opened(b0, b1))
        }),
{
    lemma_scalar_range(a0.val);
    lemma_scalar_range(a1.val);
    lemma_scalar_range(b0.val);
    lemma_scalar_range(b1.val);
    lemma_add_agree(a0.val@, a1.val@, a0.shared, b0.val@, b1.val@, b0.shared);
}

/// The value two views with values `x0`, `x1` and tag `s` stand for.
pub open spec fn opened_int(x0: int, x1: int, s: bool) -> int {
    if s {
        fadd(x0, x1)
    } else {
        x0
    }
}

/// Two views with values `x0`, `x1` and tag `s` agree: canonical values,
/// equal where public.
pub open spec fn agree(x0: int, x1: int, s: bool) -> bool {
    &&& 0 <= x0 < modulus()
    &&& 0 <= x1 < modulus()
    &&& !s ==> x0 == x1
}

/// `lemma_add_views` on the values and tags alone.
proof fn lemma_add_agree(x0: int, x1: int, sa: bool, y0: int, y1: int, sb: bool)
    requires
        agree(x0, x1, sa),
        agree(y0, y1, sb),
    ensures
        ({
            let r0 = add_view(x0, sa, y0, sb, true);
            let r1 = add_view(x1, sa, y1, sb, false);
            agree(r0, r1, sa || sb) && opened_int(r0, r1, sa || sb) == fadd(
                opened_int(x0, x1, sa),
                opened_int(y0, y1, sb),
            )
        }),
{
    lemma_field_ops(x0, y0);
    lemma_field_ops(x1, y1);
    lemma_field_ops(x0, x1);
    lemma_field_ops(y0, y1);
    let r0 = add_view(x0, sa, y0, sb, true);
    let r1 = add_view(x1, sa, y1, sb, false);
    lemma_field_ops(r0, r1);
    if sa && sb {
        lemma_congruent_ops(r0, r1, x0 + y0, x1 + y1);
        lemma_congruent_ops(fadd(x0, x1), fadd(y0, y1), x0 + x1, y0 + y1);
        lemma_field_ops(fadd(x0, x1), fadd(y0, y1));
        assert(x0 + y0 + (x1 + y1) == x0 + x1 + (y0 + y1));
        lemma_canonical_eq(fadd(r0, r1), fadd(fadd(x0, x1), fadd(y0, y1)));
    } else if !sa && sb {
        lemma_congruent_ops(r0, r1, x0 + y0, y1);
        lemma_congruent_ops(x0, fadd(y0, y1), x0, y0 + y1);
        lemma_field_ops(x0, fadd(y0, y1));
        lemma_canonical_eq(fadd(r0, r1), fadd(x0, fadd(y0, y1)));
    } else if sa && !sb {
        lemma_congruent_ops(r0, r1, x0 + y0, x1);
        lemma_congruent_ops(fadd(x0, x1), y0, x0 + x1, y0);
        lemma_field_ops(fadd(x0, x1), y0);
        lemma_canonical_eq(fadd(r0, r1), fadd(fadd(x0, x1), y0));
    }
}

/// The sum of the openings of two parties' inputs.
pub open spec fn opened_sum(vs0: Seq<MpcVal<Scalar>>, vs1: Seq<MpcVal<Scalar>>) -> int
    decreases vs0.len(),
{
    if vs0.len() == 0 {
        0
    } else {
        fadd(
            opened_sum(vs0.drop_last(), vs1.drop_last()),
            opened(vs0.last(), vs1[vs0.len() - 1]),
        )
    }
}

/// Summing is correct: where the two parties hold views `vs0` and `vs1`
/// of the same inputs, their sums agree in tag and open to the sum of the
/// openings.
pub proof fn lemma_sum_views(vs0: Seq<MpcVal<Scalar>>, vs1: Seq<MpcVal<Scalar>>)
    requires
        vs0.len() == vs1.len(),
        forall|k: int| 0 <= k < vs0.len() ==> consistent(#[trigger] vs0[k], vs1[k]),
    ensures
        ({
            let s0 = sum_view(vs0, true);
            let s1 = sum_view(vs1, false);
            &&& s0.1 == s1.1
            &&& agree(s0.0, s1.0, s0.1)
            &&& opened_int(s0.0, s1.0, s0.1) == opened_sum(vs0, vs1)
        }),
    decreases vs0.len(),
{
    if vs0.len() == 0 {
        vstd::arithmetic::div_mod::lemma_small_mod(0, modulus() as nat);
    } else {
        let n = vs0.len() - 1;
        let (p0, p1) = (vs0.drop_last(), vs1.drop_last());
        assert forall|k: int| 0 <= k < p0.len() implies consistent(#[trigger] p0[k], p1[k]) by {
            assert(consistent(vs0[k], vs1[k]));
        }
        lemma_sum_views(p0, p1);
        let a0 = sum_view(p0, true);
        let a1 = sum_view(p1, false);
        let v0 = vs0[n];
        let v1 = vs1[n];
        assert(consistent(v0, v1));
        lemma_scalar_range(v0.val);
        lemma_scalar_range(v1.val);
        lemma_add_agree(a0.0, a1.0, a0.1, v0.val@, v1.val@, v0.shared);
        assert(opened(v0, v1) == opened_int(v0.val@, v1.val@, v0.shared));
    }
}

/// Subtraction on the two parties' views yields views of the difference.
pub proof fn lemma_sub_views(
    a0: MpcVal<Scalar>,
    a1: MpcVal<Scalar>,
    b0: MpcVal<Scalar>,
    b1: MpcVal<Scalar>,
    r0: Scalar,
    r1: Scalar,
)
    requires
        consistent(a0, a1),
        consistent(b0, b1),
        r0.wf(),
        r1.wf(),
        r0@ == sub_view(a0.val@, a0.shared, b0.val@, b0.shared, true),
        r1@ == sub_view(a1.val@, a1.shared, b1.val@, b1.shared, false),
    ensures
        ({
            let s = a0.shared || b0.shared;
            let v0 = MpcVal { val: r0, shared: s };
            let v1 = MpcVal { val: r1, shared: s };
            consistent(v0, v1) && opened(v0, v1) == fsub(opened(a0, a1), opened(b0, b1))
        }),
{
    let (x0, x1, y0, y1) = (a0.val@, a1.val@, b0.val@, b1.val@);
    lemma_scalar_range(a0.val);
    lemma_scalar_range(a1.val);
    lemma_scalar_range(b0.val);
    lemma_scalar_range(b1.val);
    lemma_field_ops(x0, y0);
    lemma_field_ops(x1, y1);
    lemma_field_ops(x0, x1);
    lemma_field_ops(y0, y1);
    lemma_field_ops(0, y1);
    lemma_field_ops(r0@, r1@);
    if a0.shared && b0.shared {
        lemma_congruent_ops(r0@, r1@, x0 - y0, x1 - y1);
        lemma_congruent_ops(fadd(x0, x1), fadd(y0, y1), x0 + x1, y0 + y1);
        lemma_field_ops(fadd(x0, x1), fadd(y0, y1));
        assert(x0 - y0 + (x1 - y1) == x0 + x1 - (y0 + y1));
        lemma_canonical_eq(fadd(r0@, r1@), fsub(fadd(x0, x1), fadd(y0, y1)));
    } else if !a0.shared && b0.shared {
        lemma_congruent_ops(r0@, r1@, x0 - y0, 0 - y1);
        lemma_congruent_ops(x0, fadd(y0, y1), x0, y0 + y1);
        lemma_field_ops(x0, fadd(y0, y1));
        assert(x0 - y0 + (0 - y1) == x0 - (y0 + y1));
        lemma_canonical_eq(fadd(r0@, r1@), fsub(x0, fadd(y0, y1)));
    } else if a0.shared && !b0.shared {
        lemma_congruent_ops(r0@, r1@, x0 - y0, x1);
        lemma_congruent_ops(fadd(x0, x1), y0, x0 + x1, y0);
        lemma_field_ops(fadd(x0, x1), y0);
        assert(x0 - y0 + x1 == x0 + x1 - y0);
        lemma_canonical_eq(fadd(r0@, r1@), fsub(fadd(x0, x1), y0));
    }
}

/// A product with a public factor is local and correct: where `a` is
/// shared as `a0 + a1` and `b` is public, the parties' products `a0 * b` and
/// `a1 * b` open to `a * b`.
pub proof fn lemma_mul_public_views(a0: Scalar, a1: Scalar, b: Scalar)
    requires
        a0.wf(),
        a1.wf(),
        b.wf(),
    ensures
        fadd(fmul(a0@, b@), fmul(a1@, b@)) == fmul(fadd(a0@, a1@), b@),
{
    let (x0, x1, y) = (a0@, a1@, b@);
    lemma_field_ops(x0, y);
    lemma_field_ops(x1, y);
    lemma_field_ops(x0, x1);
    lemma_field_ops(fmul(x0, y), fmul(x1, y));
    lemma_congruent_ops(fmul(x0, y), fmul(x1, y), x0 * y, x1 * y);
    lemma_field_ops(fadd(x0, x1), y);
    lemma_congruent_ops(fadd(x0, x1), y, x0 + x1, y);
    assert(x0 * y + x1 * y == (x0 + x1) * y) by (nonlinear_arith);
    lemma_canonical_eq(fadd(fmul(x0, y), fmul(x1, y)), fmul(fadd(x0, x1), y));
}

/// The share-times-share product is correct: with `a` shared as `a0 + a1`,
/// `b` as `b0 + b1`, and a triple shared as `x0 + x1`, `y0 + y1`, `z0 + z1`
/// with `x * y = z`, the masks both parties open are equal, and the two
/// shares the protocol leaves sum to `a * b`.
pub proof fn lemma_field_mul_views(
    a0: Scalar,
    a1: Scalar,
    b0: Scalar,
    b1: Scalar,
    x0: Scalar,
    x1: Scalar,
    y0: Scalar,
    y1: Scalar,
    z0: Scalar,
    z1: Scalar,
)
    requires
        a0.wf() && a1.wf() && b0.wf() && b1.wf(),
        x0.wf() && x1.wf() && y0.wf() && y1.wf() && z0.wf() && z1.wf(),
        fmul(fadd(x0@, x1@), fadd(y0@, y1@)) == fadd(z0@, z1@),
    ensures
        ({
            let m0 = fadd(a0@, x0@);
            let m1 = fadd(a1@, x1@);
            let n0 = fadd(b0@, y0@);
            let n1 = fadd(b1@, y1@);
            let e = fadd(m1, m0);
            let d = fadd(n1, n0);
            &&& fadd(m0, m1) == e
            &&& fadd(n0, n1) == d
            &&& fadd(beaver_share(x0@, y0@, z0@, e, d, true), beaver_share(x1@, y1@, z1@, e, d, false))
                == fmul(fadd(a0@, a1@), fadd(b0@, b1@))
        }),
{
    let m0 = fadd(a0@, x0@);
    let m1 = fadd(a1@, x1@);
    let n0 = fadd(b0@, y0@);
    let n1 = fadd(b1@, y1@);
    let e = fadd(m1, m0);
    let d = fadd(n1, n0);
    assert(m1 + m0 == m0 + m1);
    assert(n1 + n0 == n0 + n1);
    let (ga0, ga1, gb0, gb1) = (a0@, a1@, b0@, b1@);
    let (gx0, gx1, gy0, gy1, gz0, gz1) = (x0@, x1@, y0@, y1@, z0@, z1@);
    let ee = ga0 + gx0 + (ga1 + gx1);
    let dd = gb0 + gy0 + (gb1 + gy1);
    // The opened masks denote a + x and b + y.
    lemma_field_ops(ga0, gx0);
    lemma_field_ops(ga1, gx1);
    lemma_field_ops(gb0, gy0);
    lemma_field_ops(gb1, gy1);
    lemma_field_ops(m1, m0);
    lemma_field_ops(n1, n0);
    lemma_congruent_ops(m1, m0, ga1 + gx1, ga0 + gx0);
    lemma_congruent_ops(n1, n0, gb1 + gy1, gb0 + gy0);
    assert(congruent(e, ee));
    assert(congruent(d, dd));
    // The first party's share.
    lemma_field_ops(gy0, e);
    lemma_congruent_ops(gy0, e, gy0, ee);
    let s1 = fsub(gz0, fmul(gy0, e));
    lemma_field_ops(gz0, fmul(gy0, e));
    lemma_congruent_ops(gz0, fmul(gy0, e), gz0, gy0 * ee);
    lemma_field_ops(gx0, d);
    lemma_congruent_ops(gx0, d, gx0, dd);
    let s2 = fsub(s1, fmul(gx0, d));
    lemma_field_ops(s1, fmul(gx0, d));
    lemma_congruent_ops(s1, fmul(gx0, d), gz0 - gy0 * ee, gx0 * dd);
    lemma_field_ops(e, d);
    lemma_congruent_ops(e, d, ee, dd);
    let sh0 = fadd(s2, fmul(e, d));
    lemma_field_ops(s2, fmul(e, d));
    lemma_congruent_ops(s2, fmul(e, d), gz0 - gy0 * ee - gx0 * dd, ee * dd);
    let t0 = gz0 - gy0 * ee - gx0 * dd + ee * dd;
    assert(congruent(sh0, t0));
    // The second party's share.
    lemma_field_ops(gy1, e);
    lemma_congruent_ops(gy1, e, gy1, ee);
    let u1 = fsub(gz1, fmul(gy1, e));
    lemma_field_ops(gz1, fmul(gy1, e));
    lemma_congruent_ops(gz1, fmul(gy1, e), gz1, gy1 * ee);
    lemma_field_ops(gx1, d);
    lemma_congruent_ops(gx1, d, gx1, dd);
    let sh1 = fsub(u1, fmul(gx1, d));
    lemma_field_ops(u1, fmul(gx1, d));
    lemma_congruent_ops(u1, fmul(gx1, d), gz1 - gy1 * ee, gx1 * dd);
    let t1 = gz1 - gy1 * ee - gx1 * dd;
    assert(congruent(sh1, t1));
    assert(beaver_share(gx0, gy0, gz0, e, d, true) == sh0);
    assert(beaver_share(gx1, gy1, gz1, e, d, false) == sh1);
    // Their sum.
    lemma_field_ops(sh0, sh1);
    lemma_congruent_ops(sh0, sh1, t0, t1);
    let xx = gx0 + gx1;
    let yy = gy0 + gy1;
    let aa = ga0 + ga1;
    let bb = gb0 + gb1;
    assert(t0 + t1 == (gz0 + gz1) - yy * ee - xx * dd + ee * dd) by (nonlinear_arith)
        requires
            t0 == gz0 - gy0 * ee - gx0 * dd + ee * dd,
            t1 == gz1 - gy1 * ee - gx1 * dd,
            xx == gx0 + gx1,
            yy == gy0 + gy1,
    ;
    // The triple: z0 + z1 denotes x * y.
    lemma_field_ops(gz0, gz1);
    lemma_field_ops(gx0, gx1);
    lemma_field_ops(gy0, gy1);
    lemma_field_ops(fadd(gx0, gx1), fadd(gy0, gy1));
    lemma_congruent_ops(fadd(gx0, gx1), fadd(gy0, gy1), xx, yy);
    assert(congruent(gz0 + gz1, xx * yy));
    let rest = 0 - yy * ee - xx * dd + ee * dd;
    lemma_congruent_ops(gz0 + gz1, rest, xx * yy, rest);
    assert(ee == aa + xx);
    assert(dd == bb + yy);
    assert(xx * yy + (0 - yy * ee - xx * dd + ee * dd) == aa * bb) by (nonlinear_arith)
        requires
            ee == aa + xx,
            dd == bb + yy,
    ;
    assert(congruent(fadd(sh0, sh1), aa * bb));
    // The product of the openings.
    lemma_field_ops(ga0, ga1);
    lemma_field_ops(gb0, gb1);
    lemma_field_ops(fadd(ga0, ga1), fadd(gb0, gb1));
    lemma_congruent_ops(fadd(ga0, ga1), fadd(gb0, gb1), aa, bb);
    lemma_canonical_eq(fadd(sh0, sh1), fmul(fadd(ga0, ga1), fadd(gb0, gb1)));
}

/// The deterministic triple source is correct: the two parties' shares
/// open to `1 * 1 = 1`.
pub proof fn lemma_stub_triple()
    ensures
        fmul(
            fadd(stub_share(true), stub_share(false)),
            fadd(stub_share(true), stub_share(false)),
        ) == fadd(stub_share(true), stub_share(false)),
        fadd(stub_share(true), stub_share(false)) == 1,
{
    vstd::arithmetic::div_mod::lemma_small_mod(1, modulus() as nat);
    assert(fadd(1, 0) == 1);
    assert(fmul(1, 1) == 1);
}

} // verus!
