//! The local half of operations on tagged group elements. Points follow
//! the additive rules of the scalar field; the target group is
//! multiplicative, so a shared element there is split as a product.
use crate::field::Scalar;
use crate::groups::{
    g1_generator_bytes, g1_negation, g1_scaled, g1_sum, g2_generator_bytes, g2_negation,
    g2_scaled, g2_sum, gt_product, pairing_of, G1Elem, G2Elem, GtElem,
};
use crate::shared::{MpcCurve, MpcCurve2, MpcVal};
use vstd::prelude::*;

verus! {

impl MpcCurve<G1Elem> {
    pub open spec fn wf(&self) -> bool {
        self.val.wf()
    }

    /// `self + other` on one party's view, by the rule of `add_view`.
    pub fn add(&self, other: &MpcCurve<G1Elem>, first: bool) -> (r: MpcCurve<G1Elem>)
        requires
            self.wf(),
            other.wf(),
        ensures
            r.wf(),
            r.shared == (self.shared || other.shared),
            r.val.bytes@ == if self.shared == other.shared || first {
                g1_sum(self.val.bytes@, other.val.bytes@)
            } else if other.shared {
                other.val.bytes@
            } else {
                self.val.bytes@
            },
    {
        let val = if self.shared == other.shared || first {
            self.val.add(&other.val)
        } else if other.shared {
            other.val
        } else {
            self.val
        };
        MpcCurve { val, shared: self.shared || other.shared }
    }

    /// `self - other` on one party's view, by the rule of `sub_view`.
    pub fn sub(&self, other: &MpcCurve<G1Elem>, first: bool) -> (r: MpcCurve<G1Elem>)
        requires
            self.wf(),
            other.wf(),
        ensures
            r.wf(),
            r.shared == (self.shared || other.shared),
            r.val.bytes@ == if self.shared == other.shared || first {
                g1_sum(self.val.bytes@, g1_negation(other.val.bytes@))
            } else if other.shared {
                g1_negation(other.val.bytes@)
            } else {
                self.val.bytes@
            },
    {
        let val = if self.shared == other.shared || first {
            self.val.sub(&other.val)
        } else if other.shared {
            other.val.neg()
        } else {
            self.val
        };
        MpcCurve { val, shared: self.shared || other.shared }
    }

    /// `-self`: each party negates what it holds.
    pub fn neg(&self) -> (r: MpcCurve<G1Elem>)
        requires
            self.wf(),
        ensures
            r.wf(),
            r.shared == self.shared,
            r.val.bytes@ == g1_negation(self.val.bytes@),
    {
        MpcCurve { val: self.val.neg(), shared: self.shared }
    }

    /// `self * k` where at most one side is shared: each party scales what
    /// it holds.
    pub fn scale_local(&self, k: &MpcVal<Scalar>) -> (r: MpcCurve<G1Elem>)
        requires
            self.wf(),
            k.wf(),
            !(self.shared && k.shared),
        ensures
            r.wf(),
            r.shared == (self.shared || k.shared),
            r.val.bytes@ == g1_scaled(self.val.bytes@, k.val@),
    {
        MpcCurve { val: self.val.scale(&k.val), shared: self.shared || k.shared }
    }

    /// The generator, public.
    pub fn prime_subgroup_generator() -> (r: MpcCurve<G1Elem>)
        ensures
            r.wf(),
            !r.shared,
            r.val.bytes@ == g1_generator_bytes(),
    {
        MpcCurve { val: G1Elem::generator(), shared: false }
    }

    /// Equality of two public points.
    pub fn equals(&self, other: &MpcCurve<G1Elem>) -> (r: bool)
        requires
            !self.shared,
            !other.shared,
        ensures
            r == (self.val.bytes@ == other.val.bytes@),
    {
        self.val.equals(&other.val)
    }

    /// Opens this party's view, given the summand the peer sent back for
    /// it; a public value stays as it is.
    pub fn publicize_with(&self, peer: &G1Elem) -> (r: MpcCurve<G1Elem>)
        requires
            self.wf(),
            peer.wf(),
        ensures
            r.wf(),
            !r.shared,
            r.val.bytes@ == if self.shared {
                g1_sum(peer.bytes@, self.val.bytes@)
            } else {
                self.val.bytes@
            },
    {
        if self.shared {
            MpcCurve { val: peer.add(&self.val), shared: false }
        } else {
            *self
        }
    }
}

impl MpcCurve2<G2Elem> {
    pub open spec fn wf(&self) -> bool {
        self.val.wf()
    }

    /// `self + other` on one party's view, by the rule of `add_view`.
    pub fn add(&self, other: &MpcCurve2<G2Elem>, first: bool) -> (r: MpcCurve2<G2Elem>)
        requires
            self.wf(),
            other.wf(),
        ensures
            r.wf(),
            r.shared == (self.shared || other.shared),
            r.val.bytes@ == if self.shared == other.shared || first {
                g2_sum(self.val.bytes@, other.val.bytes@)
            } else if other.shared {
                other.val.bytes@
            } else {
                self.val.bytes@
            },
    {
        let val = if self.shared == other.shared || first {
            self.val.add(&other.val)
        } else if other.shared {
            other.val
        } else {
            self.val
        };
        MpcCurve2 { val, shared: self.shared || other.shared }
    }

    /// `self - other` on one party's view, by the rule of `sub_view`.
    pub fn sub(&self, other: &MpcCurve2<G2Elem>, first: bool) -> (r: MpcCurve2<G2Elem>)
        requires
            self.wf(),
            other.wf(),
        ensures
            r.wf(),
            r.shared == (self.shared || other.shared),
            r.val.bytes@ == if self.shared == other.shared || first {
                g2_sum(self.val.bytes@, g2_negation(other.val.bytes@))
            } else if other.shared {
                g2_negation(other.val.bytes@)
            } else {
                self.val.bytes@
            },
    {
        let val = if self.shared == other.shared || first {
            self.val.sub(&other.val)
        } else if other.shared {
            other.val.neg()
        } else {
            self.val
        };
        MpcCurve2 { val, shared: self.shared || other.shared }
    }

    /// `-self`: each party negates what it holds.
    pub fn neg(&self) -> (r: MpcCurve2<G2Elem>)
        requires
            self.wf(),
        ensures
            r.wf(),
            r.shared == self.shared,
            r.val.bytes@ == g2_negation(self.val.bytes@),
    {
        MpcCurve2 { val: self.val.neg(), shared: self.shared }
    }

    /// `self * k` where at most one side is shared: each party scales what
    /// it holds.
    pub fn scale_local(&self, k: &MpcVal<Scalar>) -> (r: MpcCurve2<G2Elem>)
        requires
            self.wf(),
            k.wf(),
            !(self.shared && k.shared),
        ensures
            r.wf(),
            r.shared == (self.shared || k.shared),
            r.val.bytes@ == g2_scaled(self.val.bytes@, k.val@),
    {
        MpcCurve2 { val: self.val.scale(&k.val), shared: self.shared || k.shared }
    }

    /// The generator, public.
    pub fn prime_subgroup_generator() -> (r: MpcCurve2<G2Elem>)
        ensures
            r.wf(),
            !r.shared,
            r.val.bytes@ == g2_generator_bytes(),
    {
        MpcCurve2 { val: G2Elem::generator(), shared: false }
    }

    /// Equality of two public points.
    pub fn equals(&self, other: &MpcCurve2<G2Elem>) -> (r: bool)
        requires
            !self.shared,
            !other.shared,
        ensures
            r == (self.val.bytes@ == other.val.bytes@),
    {
        self.val.equals(&other.val)
    }

    /// Opens this party's view, given the summand the peer sent back for
    /// it; a public value stays as it is.
    pub fn publicize_with(&self, peer: &G2Elem) -> (r: MpcCurve2<G2Elem>)
        requires
            self.wf(),
            peer.wf(),
        ensures
            r.wf(),
            !r.shared,
            r.val.bytes@ == if self.shared {
                g2_sum(peer.bytes@, self.val.bytes@)
            } else {
                self.val.bytes@
            },
    {
        if self.shared {
            MpcCurve2 { val: peer.add(&self.val), shared: false }
        } else {
            *self
        }
    }
}

impl MpcVal<GtElem> {
    pub open spec fn wf(&self) -> bool {
        self.val.wf()
    }

    /// `self * other` on one party's view: the multiplicative counterpart
    /// of `add_view`.
    pub fn mul(&self, other: &MpcVal<GtElem>, first: bool) -> (r: MpcVal<GtElem>)
        requires
            self.wf(),
            other.wf(),
        ensures
            r.wf(),
            r.shared == (self.shared || other.shared),
            r.val.bytes@ == if self.shared == other.shared || first {
                gt_product(self.val.bytes@, other.val.bytes@)
            } else if other.shared {
                other.val.bytes@
            } else {
                self.val.bytes@
            },
    {
        let val = if self.shared == other.shared || first {
            self.val.mul(&other.val)
        } else if other.shared {
            other.val
        } else {
            self.val
        };
        MpcVal { val, shared: self.shared || other.shared }
    }

    /// Equality of two public elements.
    pub fn equals(&self, other: &MpcVal<GtElem>) -> (r: bool)
        requires
            !self.shared,
            !other.shared,
        ensures
            r == (self.val.bytes@ == other.val.bytes@),
    {
        self.val.equals(&other.val)
    }

    /// Opens this party's view, given the factor the peer sent back for it:
    /// a shared element becomes the public product; a public one stays.
    pub fn publicize_with(&self, peer: &GtElem) -> (r: MpcVal<GtElem>)
        requires
            self.wf(),
            peer.wf(),
        ensures
            r.wf(),
            !r.shared,
            r.val.bytes@ == if self.shared {
                gt_product(peer.bytes@, self.val.bytes@)
            } else {
                self.val.bytes@
            },
    {
        if self.shared {
            MpcVal { val: peer.mul(&self.val), shared: false }
        } else {
            *self
        }
    }
}

/// The pairing where at most one side is shared: each party pairs what it
/// holds, which by bilinearity is its factor of the result.
pub fn pairing_local(a: &MpcCurve<G1Elem>, b: &MpcCurve2<G2Elem>) -> (r: MpcVal<GtElem>)
    requires
        a.wf(),
        b.wf(),
        !(a.shared && b.shared),
    ensures
        r.wf(),
        r.shared == (a.shared || b.shared),
        r.val.bytes@ == pairing_of(a.val.bytes@, b.val.bytes@),
{
    MpcVal { val: GtElem::pairing(&a.val, &b.val), shared: a.shared || b.shared }
}

} // verus!
