//! The simulation step and its per-body stages.
//!
//! A step runs, in this fixed order: gravity, collision resolution,
//! wall reflection, position integration. The first three work on
//! predicted positions; the position itself changes exactly once, last.
//! An update whose exact intermediates do not fit the stored range is
//! skipped for that body, deterministically.

use vstd::prelude::*;

use crate::body::Body;
use crate::body::SBody;
use crate::body::spred;
use crate::body::spred_ok;
use crate::body::views;
use crate::collision::collide;
use crate::collision::scollide;
use crate::rational::Rat;
use crate::rational::SRat;
use crate::rational::fits;
use crate::rational::rat_lt;
use crate::rational::nadd;
use crate::rational::nmul;
use crate::rational::srat_neg;
use crate::rational::nsub;
use crate::vec2::SV2;
use crate::vec2::V2;

verus! {

/// What gravity takes off the y-velocity in one step: `g * dt`.
pub open spec fn sgrav_delta(g: SRat, dt: SRat) -> SRat {
    nmul(g, dt)
}

pub open spec fn sgrav_ok(b: SBody, g: SRat, dt: SRat) -> bool {
    fits(sgrav_delta(g, dt)) && fits(nsub(b.vel.y, sgrav_delta(g, dt)))
}

/// One body under gravity: `vel.y - g * dt`, nothing else changes.
pub open spec fn sgrav_body(b: SBody, g: SRat, dt: SRat) -> SBody {
    if sgrav_ok(b, g, dt) {
        SBody {
            mass: b.mass,
            pos: b.pos,
            vel: SV2 { x: b.vel.x, y: nsub(b.vel.y, sgrav_delta(g, dt)) },
        }
    } else {
        b
    }
}

pub open spec fn sgravity(s: Seq<SBody>, g: SRat, dt: SRat) -> Seq<SBody> {
    s.map_values(|b: SBody| sgrav_body(b, g, dt))
}

/// Lowest center coordinate that keeps the circle inside: `-half + r`.
pub open spec fn swall_low(b: SBody, half: SRat) -> SRat {
    nadd(srat_neg(half), b.mass)
}

/// Highest center coordinate that keeps the circle inside: `half - r`.
pub open spec fn swall_high(b: SBody, half: SRat) -> SRat {
    nsub(half, b.mass)
}

pub open spec fn swall_ok(b: SBody, dt: SRat, half: SRat) -> bool {
    spred_ok(b, dt) && fits(swall_low(b, half)) && fits(swall_high(b, half))
}

/// A velocity component is negated exactly when the predicted
/// coordinate leaves the allowed band; otherwise it is untouched.
pub open spec fn sreflect(v: SRat, p: SRat, low: SRat, high: SRat) -> SRat {
    if rat_lt(p, low) || rat_lt(high, p) {
        srat_neg(v)
    } else {
        v
    }
}

/// One body against the walls: each axis checked independently on the
/// predicted position; both may reflect in the same step. The position
/// is not clamped.
pub open spec fn swall_body(b: SBody, dt: SRat, half: SRat) -> SBody {
    if swall_ok(b, dt, half) {
        SBody {
            mass: b.mass,
            pos: b.pos,
            vel: SV2 {
                x: sreflect(b.vel.x, spred(b, dt).x, swall_low(b, half), swall_high(b, half)),
                y: sreflect(b.vel.y, spred(b, dt).y, swall_low(b, half), swall_high(b, half)),
            },
        }
    } else {
        b
    }
}

pub open spec fn swall(s: Seq<SBody>, dt: SRat, half: SRat) -> Seq<SBody> {
    s.map_values(|b: SBody| swall_body(b, dt, half))
}

/// One body advanced: the position becomes the predicted position.
pub open spec fn smove_body(b: SBody, dt: SRat) -> SBody {
    if spred_ok(b, dt) {
        SBody { mass: b.mass, pos: spred(b, dt), vel: b.vel }
    } else {
        b
    }
}

pub open spec fn smove(s: Seq<SBody>, dt: SRat) -> Seq<SBody> {
    s.map_values(|b: SBody| smove_body(b, dt))
}

/// One whole step: gravity, then collisions, then walls, then movement.
pub open spec fn sstep(s: Seq<SBody>, dt: SRat, half: SRat, g: SRat) -> Seq<SBody> {
    smove(swall(scollide(sgravity(s, g, dt), dt), dt, half), dt)
}

/// Take `g * dt` off every body's y-velocity; x-velocity, position and
/// mass stay as they are.
pub fn gravity(bodies: &mut Vec<Body>, g: Rat, dt: Rat)
    requires
        g.wf(),
        dt.wf(),
        forall|k: int| 0 <= k < old(bodies)@.len() ==> old(bodies)@[k].wf(),
    ensures
        final(bodies)@.len() == old(bodies)@.len(),
        forall|k: int| 0 <= k < final(bodies)@.len() ==> final(bodies)@[k].wf(),
        views(final(bodies)@) == sgravity(views(old(bodies)@), g@, dt@),
{
    let delta = match g.mul(dt) {
        Some(d) => d,
        None => {
            proof {
                assert(views(bodies@) =~= sgravity(views(old(bodies)@), g@, dt@));
            }
            return ;
        },
    };
    let n = bodies.len();
    let mut i: usize = 0;
    while i < n
        invariant
            g.wf(),
            dt.wf(),
            delta.wf(),
            delta@ == sgrav_delta(g@, dt@),
            n == bodies@.len(),
            i <= n,
            forall|k: int| 0 <= k < n ==> bodies@[k].wf(),
            forall|k: int| 0 <= k < i ==> bodies@[k]@ == sgrav_body(old(bodies)@[k]@, g@, dt@),
            forall|k: int| i <= k < n ==> bodies@[k] == old(bodies)@[k],
        decreases n - i,
    {
        let b = bodies[i];
        match b.vel.y.sub(delta) {
            Some(vy) => {
                bodies.set(i, Body { mass: b.mass, pos: b.pos, vel: V2 { x: b.vel.x, y: vy } });
            },
            None => {},
        }
        i += 1;
    }
    proof {
        assert(views(bodies@) =~= sgravity(views(old(bodies)@), g@, dt@));
    }
}

/// Reflect each body off the arena walls: where the predicted position
/// leaves the allowed band on an axis, that axis's velocity is negated;
/// the axes are checked independently and the position is not clamped.
pub fn collide_wall(bodies: &mut Vec<Body>, dt: Rat, half_side: Rat)
    requires
        dt.wf(),
        half_side.wf(),
        forall|k: int| 0 <= k < old(bodies)@.len() ==> old(bodies)@[k].wf(),
    ensures
        final(bodies)@.len() == old(bodies)@.len(),
        forall|k: int| 0 <= k < final(bodies)@.len() ==> final(bodies)@[k].wf(),
        views(final(bodies)@) == swall(views(old(bodies)@), dt@, half_side@),
{
    let n = bodies.len();
    let mut i: usize = 0;
    while i < n
        invariant
            dt.wf(),
            half_side.wf(),
            n == bodies@.len(),
            i <= n,
            forall|k: int| 0 <= k < n ==> bodies@[k].wf(),
            forall|k: int| 0 <= k < i ==> bodies@[k]@ == swall_body(
                old(bodies)@[k]@,
                dt@,
                half_side@,
            ),
            forall|k: int| i <= k < n ==> bodies@[k] == old(bodies)@[k],
        decreases n - i,
    {
        let b = bodies[i];
        let moved = match b.vel.scale(dt) {
            Some(v) => v,
            None => {
                i += 1;
                continue ;
            },
        };
        let pred = match b.pos.vadd(moved) {
            Some(v) => v,
            None => {
                i += 1;
                continue ;
            },
        };
        let low = match half_side.neg().add(b.mass) {
            Some(v) => v,
            None => {
                i += 1;
                continue ;
            },
        };
        let high = match half_side.sub(b.mass) {
            Some(v) => v,
            None => {
                i += 1;
                continue ;
            },
        };
        let vx = if pred.x.lt(low) || high.lt(pred.x) {
            b.vel.x.neg()
        } else {
            b.vel.x
        };
        let vy = if pred.y.lt(low) || high.lt(pred.y) {
            b.vel.y.neg()
        } else {
            b.vel.y
        };
        bodies.set(i, Body { mass: b.mass, pos: b.pos, vel: V2 { x: vx, y: vy } });
        i += 1;
    }
    proof {
        assert(views(bodies@) =~= swall(views(old(bodies)@), dt@, half_side@));
    }
}

/// Advance each body's position by `velocity * dt`; velocities and
/// masses stay as they are.
pub fn velocity(bodies: &mut Vec<Body>, dt: Rat)
    requires
        dt.wf(),
        forall|k: int| 0 <= k < old(bodies)@.len() ==> old(bodies)@[k].wf(),
    ensures
        final(bodies)@.len() == old(bodies)@.len(),
        forall|k: int| 0 <= k < final(bodies)@.len() ==> final(bodies)@[k].wf(),
        views(final(bodies)@) == smove(views(old(bodies)@), dt@),
{
    let n = bodies.len();
    let mut i: usize = 0;
    while i < n
        invariant
            dt.wf(),
            n == bodies@.len(),
            i <= n,
            forall|k: int| 0 <= k < n ==> bodies@[k].wf(),
            forall|k: int| 0 <= k < i ==> bodies@[k]@ == smove_body(old(bodies)@[k]@, dt@),
            forall|k: int| i <= k < n ==> bodies@[k] == old(bodies)@[k],
        decreases n - i,
    {
        let b = bodies[i];
        let moved = match b.vel.scale(dt) {
            Some(v) => v,
            None => {
                i += 1;
                continue ;
            },
        };
        match b.pos.vadd(moved) {
            Some(p) => {
                bodies.set(i, Body { mass: b.mass, pos: p, vel: b.vel });
            },
            None => {},
        }
        i += 1;
    }
    proof {
        assert(views(bodies@) =~= smove(views(old(bodies)@), dt@));
    }
}

/// One simulation step: gravity, collision resolution, wall reflection,
/// position integration, in that order, all reading the same `dt`.
pub fn step(bodies: &mut Vec<Body>, dt: Rat, half_side: Rat, g: Rat)
    requires
        dt.wf(),
        half_side.wf(),
        g.wf(),
        forall|k: int| 0 <= k < old(bodies)@.len() ==> old(bodies)@[k].wf(),
    ensures
        final(bodies)@.len() == old(bodies)@.len(),
        forall|k: int| 0 <= k < final(bodies)@.len() ==> final(bodies)@[k].wf(),
        views(final(bodies)@) == sstep(views(old(bodies)@), dt@, half_side@, g@),
{
    gravity(bodies, g, dt);
    collide(bodies, dt);
    collide_wall(bodies, dt, half_side);
    velocity(bodies, dt);
}

} // verus!
