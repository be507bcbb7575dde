//! Values tagged public or shared, and the local half of every operation on
//! them.
//!
//! A public value is held identically by both parties. A shared value is one
//! summand per party; the value it stands for is the sum of the two. An
//! operation runs on one party's view and takes that party's role
//! (`first`: the party that talks first on the channel).
use crate::field::{fadd, fmul, fsub, multiplicative_generator, two_adic_root, Scalar};
use vstd::prelude::*;

verus! {

/// A value with its sharing tag.
#[derive(Clone, Copy)]
pub struct MpcVal<T> {
    pub val: T,
    pub shared: bool,
}

/// A point of the first source group with its sharing tag.
#[derive(Clone, Copy)]
pub struct MpcCurve<T> {
    pub val: T,
    pub shared: bool,
}

/// A point of the second source group with its sharing tag.
#[derive(Clone, Copy)]
pub struct MpcCurve2<T> {
    pub val: T,
    pub shared: bool,
}

/// A prepared point of the first source group with its sharing tag.
#[derive(Clone, Copy)]
pub struct MpcPrepCurve<T> {
    pub val: T,
    pub shared: bool,
}

/// A prepared point of the second source group with its sharing tag.
#[derive(Clone, Copy)]
pub struct MpcPrepCurve2<T> {
    pub val: T,
    pub shared: bool,
}

impl<T> MpcVal<T> {
    pub fn new(val: T, shared: bool) -> (r: Self)
        ensures
            r.val == val,
            r.shared == shared,
    {
        MpcVal { val, shared }
    }

    pub fn from_public(val: T) -> (r: Self)
        ensures
            r.val == val,
            !r.shared,
    {
        MpcVal { val, shared: false }
    }

    pub fn from_shared(val: T) -> (r: Self)
        ensures
            r.val == val,
            r.shared,
    {
        MpcVal { val, shared: true }
    }
}

impl<T> MpcCurve<T> {
    pub fn new(val: T, shared: bool) -> (r: Self)
        ensures
            r.val == val,
            r.shared == shared,
    {
        MpcCurve { val, shared }
    }

    pub fn from_public(val: T) -> (r: Self)
        ensures
            r.val == val,
            !r.shared,
    {
        MpcCurve { val, shared: false }
    }

    pub fn from_shared(val: T) -> (r: Self)
        ensures
            r.val == val,
            r.shared,
    {
        MpcCurve { val, shared: true }
    }
}

impl<T> MpcCurve2<T> {
    pub fn new(val: T, shared: bool) -> (r: Self)
        ensures
            r.val == val,
            r.shared == shared,
    {
        MpcCurve2 { val, shared }
    }

    pub fn from_public(val: T) -> (r: Self)
        ensures
            r.val == val,
            !r.shared,
    {
        MpcCurve2 { val, shared: false }
    }

    pub fn from_shared(val: T) -> (r: Self)
        ensures
            r.val == val,
            r.shared,
    {
        MpcCurve2 { val, shared: true }
    }
}

impl<T> MpcPrepCurve<T> {
    pub fn new(val: T, shared: bool) -> (r: Self)
        ensures
            r.val == val,
            r.shared == shared,
    {
        MpcPrepCurve { val, shared }
    }

    pub fn from_public(val: T) -> (r: Self)
        ensures
            r.val == val,
            !r.shared,
    {
        MpcPrepCurve { val, shared: false }
    }

    pub fn from_shared(val: T) -> (r: Self)
        ensures
            r.val == val,
            r.shared,
    {
        MpcPrepCurve { val, shared: true }
    }
}

impl<T> MpcPrepCurve2<T> {
    pub fn new(val: T, shared: bool) -> (r: Self)
        ensures
            r.val == val,
            r.shared == shared,
    {
        MpcPrepCurve2 { val, shared }
    }

    pub fn from_public(val: T) -> (r: Self)
        ensures
            r.val == val,
            !r.shared,
    {
        MpcPrepCurve2 { val, shared: false }
    }

    pub fn from_shared(val: T) -> (r: Self)
        ensures
            r.val == val,
            r.shared,
    {
        MpcPrepCurve2 { val, shared: true }
    }
}

/// What one party holds after `a + b`: both tags equal, or the first party,
/// adds; otherwise the second party keeps the shared operand and leaves the
/// public summand to the first party.
pub open spec fn add_view(a: int, a_shared: bool, b: int, b_shared: bool, first: bool) -> int {
    if a_shared == b_shared || first {
        fadd(a, b)
    } else if b_shared {
        b
    } else {
        a
    }
}

/// What one party holds after `a - b`, by the same rule as `add_view`, with
/// the second party negating a shared subtrahend.
pub open spec fn sub_view(a: int, a_shared: bool, b: int, b_shared: bool, first: bool) -> int {
    if a_shared == b_shared || first {
        fsub(a, b)
    } else if b_shared {
        fsub(0, b)
    } else {
        a
    }
}

/// The two parties' views of one value agree: equal tags, and equal values
/// where public.
pub open spec fn consistent(v0: MpcVal<Scalar>, v1: MpcVal<Scalar>) -> bool {
    &&& v0.wf()
    &&& v1.wf()
    &&& v0.shared == v1.shared
    &&& !v0.shared ==> v0.val@ == v1.val@
}

/// The field element that the first party's view `v0` and the second
/// party's view `v1` stand for.
pub open spec fn opened(v0: MpcVal<Scalar>, v1: MpcVal<Scalar>) -> int {
    if v0.shared {
        fadd(v0.val@, v1.val@)
    } else {
        v0.val@
    }
}

/// What one party holds after opening `v`, the peer having sent back
/// `peer`: the sum where `v` is shared, `v` itself where it is public.
pub open spec fn publicized(v: MpcVal<Scalar>, peer: int) -> int {
    if v.shared {
        fadd(peer, v.val@)
    } else {
        v.val@
    }
}

impl MpcVal<Scalar> {
    pub open spec fn wf(&self) -> bool {
        self.val.wf()
    }

    /// The public root of unity of order `2^47`.
    pub fn two_adic_root_of_unity() -> (r: MpcVal<Scalar>)
        ensures
            r.wf(),
            !r.shared,
            r.val@ == two_adic_root(),
    {
        MpcVal::from_public(Scalar::two_adic_root_of_unity())
    }

    /// The public generator of the multiplicative group.
    pub fn multiplicative_generator() -> (r: MpcVal<Scalar>)
        ensures
            r.wf(),
            !r.shared,
            r.val@ == multiplicative_generator(),
    {
        MpcVal::from_public(Scalar::multiplicative_generator())
    }

    /// The public zero.
    pub fn zero() -> (r: MpcVal<Scalar>)
        ensures
            r.wf(),
            !r.shared,
            r.val@ == 0,
    {
        MpcVal::from_public(Scalar::zero())
    }

    /// The public one.
    pub fn one() -> (r: MpcVal<Scalar>)
        ensures
            r.wf(),
            !r.shared,
            r.val@ == 1,
    {
        MpcVal::from_public(Scalar::one())
    }

    /// The public element `n`.
    pub fn from_u64(n: u64) -> (r: MpcVal<Scalar>)
        ensures
            r.wf(),
            !r.shared,
            r.val@ == n as int,
    {
        MpcVal::from_public(Scalar::from_u64(n))
    }

    /// `self + other` on one party's view.
    pub fn add(&self, other: &MpcVal<Scalar>, first: bool) -> (r: MpcVal<Scalar>)
        requires
            self.wf(),
            other.wf(),
        ensures
            r.wf(),
            r.shared == (self.shared || other.shared),
            r.val@ == add_view(self.val@, self.shared, other.val@, other.shared, first),
    {
        let val = if self.shared == other.shared || first {
            self.val.add(&other.val)
        } else if other.shared {
            other.val
        } else {
            self.val
        };
        MpcVal { val, shared: self.shared || other.shared }
    }

    /// `self - other` on one party's view.
    pub fn sub(&self, other: &MpcVal<Scalar>, first: bool) -> (r: MpcVal<Scalar>)
        requires
            self.wf(),
            other.wf(),
        ensures
            r.wf(),
            r.shared == (self.shared || other.shared),
            r.val@ == sub_view(self.val@, self.shared, other.val@, other.shared, first),
    {
        let val = if self.shared == other.shared || first {
            self.val.sub(&other.val)
        } else if other.shared {
            other.val.neg()
        } else {
            self.val
        };
        MpcVal { val, shared: self.shared || other.shared }
    }

    /// `-self`: each party negates what it holds.
    pub fn neg(&self) -> (r: MpcVal<Scalar>)
        requires
            self.wf(),
        ensures
            r.wf(),
            r.shared == self.shared,
            r.val@ == fsub(0, self.val@),
    {
        MpcVal { val: self.val.neg(), shared: self.shared }
    }

    /// `2 * self`: each party doubles what it holds.
    pub fn double(&self) -> (r: MpcVal<Scalar>)
        requires
            self.wf(),
        ensures
            r.wf(),
            r.shared == self.shared,
            r.val@ == fadd(self.val@, self.val@),
    {
        MpcVal { val: self.val.add(&self.val), shared: self.shared }
    }

    /// `self * other` where at most one side is shared: each party scales
    /// what it holds by the public factor.
    pub fn mul_local(&self, other: &MpcVal<Scalar>) -> (r: MpcVal<Scalar>)
        requires
            self.wf(),
            other.wf(),
            !(self.shared && other.shared),
        ensures
            r.wf(),
            r.shared == (self.shared || other.shared),
            r.val@ == fmul(self.val@, other.val@),
    {
        MpcVal { val: self.val.mul(&other.val), shared: self.shared || other.shared }
    }

    /// `self / other` where `other` is public; `None` where it is zero.
    pub fn div_public(&self, other: &MpcVal<Scalar>) -> (r: Option<MpcVal<Scalar>>)
        requires
            self.wf(),
            other.wf(),
            !other.shared,
        ensures
            r.is_some() == (other.val@ != 0),
            r.is_some() ==> {
                let q = r.unwrap();
                &&& q.wf()
                &&& q.shared == self.shared
                &&& fmul(q.val@, other.val@) == self.val@
            },
    {
        match self.val.div(&other.val) {
            None => None,
            Some(val) => Some(MpcVal { val, shared: self.shared }),
        }
    }

    /// `self * self` on a public value.
    pub fn square(&self) -> (r: MpcVal<Scalar>)
        requires
            self.wf(),
            !self.shared,
        ensures
            r.wf(),
            !r.shared,
            r.val@ == fmul(self.val@, self.val@),
    {
        MpcVal { val: self.val.mul(&self.val), shared: false }
    }

    /// The inverse of a public value; `None` for zero.
    pub fn inverse(&self) -> (r: Option<MpcVal<Scalar>>)
        requires
            self.wf(),
            !self.shared,
        ensures
            r.is_some() == (self.val@ != 0),
            r.is_some() ==> r.unwrap().wf() && !r.unwrap().shared && fmul(
                self.val@,
                r.unwrap().val@,
            ) == 1,
    {
        match self.val.inverse() {
            None => None,
            Some(val) => Some(MpcVal { val, shared: false }),
        }
    }

    /// Whether a public value is zero.
    pub fn is_zero(&self) -> (r: bool)
        requires
            self.wf(),
            !self.shared,
        ensures
            r == (self.val@ == 0),
    {
        let z = Scalar::zero();
        self.val.equals(&z)
    }

    /// Equality of two public values.
    pub fn equals(&self, other: &MpcVal<Scalar>) -> (r: bool)
        requires
            !self.shared,
            !other.shared,
        ensures
            r == (self.val@ == other.val@),
    {
        self.val.equals(&other.val)
    }

    /// Opens this party's view, given the summand the peer sent back for
    /// it: a shared value becomes the public sum; a public value, for which
    /// nothing is exchanged, stays as it is.
    pub fn publicize_with(&self, peer: &Scalar) -> (r: MpcVal<Scalar>)
        requires
            self.wf(),
            peer.wf(),
        ensures
            r.wf(),
            !r.shared,
            r.val@ == publicized(*self, peer@),
    {
        if self.shared {
            MpcVal { val: peer.add(&self.val), shared: false }
        } else {
            *self
        }
    }
}

} // verus!
