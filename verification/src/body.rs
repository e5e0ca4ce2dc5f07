//! The simulated entity: a circular rigid body.
//!
//! One scalar serves as both the body's mass and its radius; the two
//! are deliberately not separated, so collision size follows mass.

use vstd::prelude::*;

use crate::rational::Rat;
use crate::rational::SRat;
use crate::rational::rat_lt;
use crate::rational::fits;
use crate::rational::srat_zero;
use crate::vec2::SV2;
use crate::vec2::V2;
use crate::vec2::sv2_add;
use crate::vec2::sv2_add_ok;
use crate::vec2::sv2_fits;
use crate::vec2::sv2_scale;
use crate::vec2::sv2_scale_ok;

verus! {

/// A body as a mathematical value.
pub ghost struct SBody {
    pub mass: SRat,
    pub pos: SV2,
    pub vel: SV2,
}

/// Where a body will stand after `dt` at its current velocity: the
/// predicted position used for look-ahead checks.
pub open spec fn spred(b: SBody, dt: SRat) -> SV2 {
    sv2_add(b.pos, sv2_scale(b.vel, dt))
}

/// The prediction's exact intermediates all fit the stored range.
pub open spec fn spred_ok(b: SBody, dt: SRat) -> bool {
    sv2_scale_ok(b.vel, dt) && sv2_add_ok(b.pos, sv2_scale(b.vel, dt))
}

/// The mathematical values of a sequence of stored bodies.
pub open spec fn views(s: Seq<Body>) -> Seq<SBody> {
    s.map_values(|b: Body| b@)
}

pub open spec fn sbody_wf(b: SBody) -> bool {
    &&& fits(b.mass)
    &&& rat_lt(srat_zero(), b.mass)
    &&& sv2_fits(b.pos)
    &&& sv2_fits(b.vel)
}

/// A circular rigid body: positive mass (doubling as radius), center
/// position, and velocity in units per second.
#[derive(Clone, Copy, Debug, PartialEq, Eq, Structural)]
pub struct Body {
    pub mass: Rat,
    pub pos: V2,
    pub vel: V2,
}

impl View for Body {
    type V = SBody;

    open spec fn view(&self) -> SBody {
        SBody { mass: self.mass@, pos: self.pos@, vel: self.vel@ }
    }
}

impl Body {
    pub open spec fn wf(self) -> bool {
        sbody_wf(self@)
    }

    /// A body with the given state; `None` exactly when the mass is not
    /// positive.
    pub fn new(mass: Rat, pos: V2, vel: V2) -> (r: Option<Body>)
        requires
            mass.wf(),
            pos.wf(),
            vel.wf(),
        ensures
            r is Some <==> rat_lt(srat_zero(), mass@),
            r matches Some(b) ==> b@ == (SBody { mass: mass@, pos: pos@, vel: vel@ }) && b.wf(),
    {
        if Rat::zero().lt(mass) {
            Some(Body { mass, pos, vel })
        } else {
            None
        }
    }
}

} // verus!
