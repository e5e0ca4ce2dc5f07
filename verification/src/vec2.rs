//! Exact two-dimensional vectors over rational scalars.
//!
//! Each operation mirrors the scalar layer: it returns `None` exactly
//! when some component's exact result does not fit the stored range.

use vstd::prelude::*;

use crate::rational::Rat;
use crate::rational::SRat;
use crate::rational::fits;
use crate::rational::nadd;
use crate::rational::ndiv;
use crate::rational::nmul;
use crate::rational::nsub;
use crate::rational::srat_neg;

verus! {

/// A two-dimensional vector as a mathematical value.
pub ghost struct SV2 {
    pub x: SRat,
    pub y: SRat,
}

pub open spec fn sv2_fits(v: SV2) -> bool {
    fits(v.x) && fits(v.y)
}

pub open spec fn sv2_add(a: SV2, b: SV2) -> SV2 {
    SV2 { x: nadd(a.x, b.x), y: nadd(a.y, b.y) }
}

pub open spec fn sv2_add_ok(a: SV2, b: SV2) -> bool {
    fits(nadd(a.x, b.x)) && fits(nadd(a.y, b.y))
}

pub open spec fn sv2_sub(a: SV2, b: SV2) -> SV2 {
    SV2 { x: nsub(a.x, b.x), y: nsub(a.y, b.y) }
}

pub open spec fn sv2_sub_ok(a: SV2, b: SV2) -> bool {
    fits(nsub(a.x, b.x)) && fits(nsub(a.y, b.y))
}

pub open spec fn sv2_neg(a: SV2) -> SV2 {
    SV2 { x: srat_neg(a.x), y: srat_neg(a.y) }
}

/// Componentwise product with a scalar: `v * s`.
pub open spec fn sv2_scale(v: SV2, s: SRat) -> SV2 {
    SV2 { x: nmul(v.x, s), y: nmul(v.y, s) }
}

pub open spec fn sv2_scale_ok(v: SV2, s: SRat) -> bool {
    fits(nmul(v.x, s)) && fits(nmul(v.y, s))
}

/// Componentwise quotient by a scalar: `v / s`.
pub open spec fn sv2_div(v: SV2, s: SRat) -> SV2 {
    SV2 { x: ndiv(v.x, s), y: ndiv(v.y, s) }
}

pub open spec fn sv2_div_ok(v: SV2, s: SRat) -> bool {
    s.num != 0 && fits(ndiv(v.x, s)) && fits(ndiv(v.y, s))
}

/// The dot product `a.x * b.x + a.y * b.y`, as computed: both products
/// first, then their sum.
pub open spec fn sdot(a: SV2, b: SV2) -> SRat {
    nadd(nmul(a.x, b.x), nmul(a.y, b.y))
}

pub open spec fn sdot_ok(a: SV2, b: SV2) -> bool {
    &&& fits(nmul(a.x, b.x))
    &&& fits(nmul(a.y, b.y))
    &&& fits(nadd(nmul(a.x, b.x), nmul(a.y, b.y)))
}

/// An exact two-dimensional vector.
#[derive(Clone, Copy, Debug, PartialEq, Eq, Structural)]
pub struct V2 {
    pub x: Rat,
    pub y: Rat,
}

impl View for V2 {
    type V = SV2;

    open spec fn view(&self) -> SV2 {
        SV2 { x: self.x@, y: self.y@ }
    }
}

impl V2 {
    pub open spec fn wf(self) -> bool {
        sv2_fits(self@)
    }

    pub fn new(x: Rat, y: Rat) -> (r: V2)
        ensures
            r@ == (SV2 { x: x@, y: y@ }),
    {
        V2 { x, y }
    }

    pub fn vadd(self, other: V2) -> (r: Option<V2>)
        requires
            self.wf(),
            other.wf(),
        ensures
            r is Some <==> sv2_add_ok(self@, other@),
            r matches Some(v) ==> v@ == sv2_add(self@, other@) && v.wf(),
    {
        match self.x.add(other.x) {
            Some(x) => match self.y.add(other.y) {
                Some(y) => Some(V2 { x, y }),
                None => None,
            },
            None => None,
        }
    }

    pub fn vsub(self, other: V2) -> (r: Option<V2>)
        requires
            self.wf(),
            other.wf(),
        ensures
            r is Some <==> sv2_sub_ok(self@, other@),
            r matches Some(v) ==> v@ == sv2_sub(self@, other@) && v.wf(),
    {
        match self.x.sub(other.x) {
            Some(x) => match self.y.sub(other.y) {
                Some(y) => Some(V2 { x, y }),
                None => None,
            },
            None => None,
        }
    }

    pub fn vneg(self) -> (r: V2)
        requires
            self.wf(),
        ensures
            r@ == sv2_neg(self@),
            r.wf(),
    {
        V2 { x: self.x.neg(), y: self.y.neg() }
    }

    pub fn scale(self, s: Rat) -> (r: Option<V2>)
        requires
            self.wf(),
            s.wf(),
        ensures
            r is Some <==> sv2_scale_ok(self@, s@),
            r matches Some(v) ==> v@ == sv2_scale(self@, s@) && v.wf(),
    {
        match self.x.mul(s) {
            Some(x) => match self.y.mul(s) {
                Some(y) => Some(V2 { x, y }),
                None => None,
            },
            None => None,
        }
    }

    pub fn vdiv(self, s: Rat) -> (r: Option<V2>)
        requires
            self.wf(),
            s.wf(),
        ensures
            r is Some <==> sv2_div_ok(self@, s@),
            r matches Some(v) ==> v@ == sv2_div(self@, s@) && v.wf(),
    {
        match self.x.div(s) {
            Some(x) => match self.y.div(s) {
                Some(y) => Some(V2 { x, y }),
                None => None,
            },
            None => None,
        }
    }

    pub fn dot(self, other: V2) -> (r: Option<Rat>)
        requires
            self.wf(),
            other.wf(),
        ensures
            r is Some <==> sdot_ok(self@, other@),
            r matches Some(v) ==> v@ == sdot(self@, other@) && v.wf(),
    {
        match self.x.mul(other.x) {
            Some(px) => match self.y.mul(other.y) {
                Some(py) => px.add(py),
                None => None,
            },
            None => None,
        }
    }
}

} // verus!
