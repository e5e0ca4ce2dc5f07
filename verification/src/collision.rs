//! Pairwise elastic collision resolution.
//!
//! Every unordered pair of bodies is visited in a fixed order
//! (lexicographic over indices). A pair whose predicted centers come
//! within the sum of the two radii gets an impulse-based elastic
//! response along the line between the current centers; only the
//! velocities change. A pair whose centers coincide is skipped, as is a
//! pair for which some exact intermediate does not fit the stored range.

use vstd::prelude::*;

use crate::body::Body;
use crate::body::SBody;
use crate::body::spred;
use crate::body::spred_ok;
use crate::body::views;
use crate::rational::Rat;
use crate::rational::SRat;
use crate::rational::fits;
use crate::rational::rat_le;
use crate::rational::nadd;
use crate::rational::ndiv;
use crate::rational::nmul;
use crate::rational::nsub;
use crate::vec2::SV2;
use crate::vec2::V2;
use crate::vec2::sdot;
use crate::vec2::sdot_ok;
use crate::vec2::sv2_add;
use crate::vec2::sv2_add_ok;
use crate::vec2::sv2_div;
use crate::vec2::sv2_div_ok;
use crate::vec2::sv2_scale;
use crate::vec2::sv2_scale_ok;
use crate::vec2::sv2_sub;
use crate::vec2::sv2_sub_ok;

verus! {

/// Separation of the predicted centers.
pub open spec fn sgap(a: SBody, b: SBody, dt: SRat) -> SV2 {
    sv2_sub(spred(b, dt), spred(a, dt))
}

/// Squared distance between the predicted centers.
pub open spec fn sdist_sq(a: SBody, b: SBody, dt: SRat) -> SRat {
    sdot(sgap(a, b, dt), sgap(a, b, dt))
}

/// Sum of the two radii (mass doubles as radius).
pub open spec fn srad_sum(a: SBody, b: SBody) -> SRat {
    nadd(a.mass, b.mass)
}

pub open spec fn srad_sq(a: SBody, b: SBody) -> SRat {
    nmul(srad_sum(a, b), srad_sum(a, b))
}

/// The detection computation's exact intermediates all fit.
pub open spec fn sdetect_ok(a: SBody, b: SBody, dt: SRat) -> bool {
    &&& spred_ok(a, dt)
    &&& spred_ok(b, dt)
    &&& sv2_sub_ok(spred(b, dt), spred(a, dt))
    &&& sdot_ok(sgap(a, b, dt), sgap(a, b, dt))
    &&& fits(srad_sum(a, b))
    &&& fits(srad_sq(a, b))
}

/// Predicted overlap: distance at most the sum of radii, compared on
/// squares since both sides are non-negative.
pub open spec fn shit(a: SBody, b: SBody, dt: SRat) -> bool {
    rat_le(sdist_sq(a, b, dt), srad_sq(a, b))
}

/// The collision axis: the line between the current centers.
pub open spec fn saxis(a: SBody, b: SBody) -> SV2 {
    sv2_sub(b.pos, a.pos)
}

pub open spec fn slen_sq(a: SBody, b: SBody) -> SRat {
    sdot(saxis(a, b), saxis(a, b))
}

pub open spec fn saxis_ok(a: SBody, b: SBody) -> bool {
    sv2_sub_ok(b.pos, a.pos) && sdot_ok(saxis(a, b), saxis(a, b))
}

/// The two centers coincide, so the axis direction is undefined and the
/// pair is skipped.
pub open spec fn sdegenerate(a: SBody, b: SBody) -> bool {
    slen_sq(a, b).num == 0
}

/// Coefficient of the projection of `a`'s velocity on the axis.
pub open spec fn sq_a(a: SBody, b: SBody) -> SRat {
    ndiv(sdot(a.vel, saxis(a, b)), slen_sq(a, b))
}

pub open spec fn sq_b(a: SBody, b: SBody) -> SRat {
    ndiv(sdot(b.vel, saxis(a, b)), slen_sq(a, b))
}

/// Component of `a`'s velocity along the axis.
pub open spec fn snorm_a(a: SBody, b: SBody) -> SV2 {
    sv2_scale(saxis(a, b), sq_a(a, b))
}

pub open spec fn snorm_b(a: SBody, b: SBody) -> SV2 {
    sv2_scale(saxis(a, b), sq_b(a, b))
}

/// Component of `a`'s velocity perpendicular to the axis; a collision
/// leaves it unchanged.
pub open spec fn stan_a(a: SBody, b: SBody) -> SV2 {
    sv2_sub(a.vel, snorm_a(a, b))
}

pub open spec fn stan_b(a: SBody, b: SBody) -> SV2 {
    sv2_sub(b.vel, snorm_b(a, b))
}

/// Numerator of the elastic response for `a`: `2*mb*nb + na*(ma - mb)`.
pub open spec fn ssum_a(a: SBody, b: SBody) -> SV2 {
    sv2_add(
        sv2_scale(snorm_b(a, b), nadd(b.mass, b.mass)),
        sv2_scale(snorm_a(a, b), nsub(a.mass, b.mass)),
    )
}

/// Numerator of the elastic response for `b`: `2*ma*na + nb*(mb - ma)`.
pub open spec fn ssum_b(a: SBody, b: SBody) -> SV2 {
    sv2_add(
        sv2_scale(snorm_a(a, b), nadd(a.mass, a.mass)),
        sv2_scale(snorm_b(a, b), nsub(b.mass, a.mass)),
    )
}

/// New axis component of `a`'s velocity, by the one-dimensional elastic
/// collision formula.
pub open spec fn snew_norm_a(a: SBody, b: SBody) -> SV2 {
    sv2_div(ssum_a(a, b), nadd(a.mass, b.mass))
}

pub open spec fn snew_norm_b(a: SBody, b: SBody) -> SV2 {
    sv2_div(ssum_b(a, b), nadd(a.mass, b.mass))
}

/// `a`'s velocity after the response: unchanged tangential component
/// plus the new axis component.
pub open spec fn snew_vel_a(a: SBody, b: SBody) -> SV2 {
    sv2_add(stan_a(a, b), snew_norm_a(a, b))
}

pub open spec fn snew_vel_b(a: SBody, b: SBody) -> SV2 {
    sv2_add(stan_b(a, b), snew_norm_b(a, b))
}

/// The response computation's exact intermediates all fit.
pub open spec fn sresp_ok(a: SBody, b: SBody) -> bool {
    &&& sdot_ok(a.vel, saxis(a, b))
    &&& fits(sq_a(a, b))
    &&& sv2_scale_ok(saxis(a, b), sq_a(a, b))
    &&& sv2_sub_ok(a.vel, snorm_a(a, b))
    &&& sdot_ok(b.vel, saxis(a, b))
    &&& fits(sq_b(a, b))
    &&& sv2_scale_ok(saxis(a, b), sq_b(a, b))
    &&& sv2_sub_ok(b.vel, snorm_b(a, b))
    &&& fits(nadd(b.mass, b.mass))
    &&& fits(nsub(a.mass, b.mass))
    &&& sv2_scale_ok(snorm_b(a, b), nadd(b.mass, b.mass))
    &&& sv2_scale_ok(snorm_a(a, b), nsub(a.mass, b.mass))
    &&& sv2_add_ok(
        sv2_scale(snorm_b(a, b), nadd(b.mass, b.mass)),
        sv2_scale(snorm_a(a, b), nsub(a.mass, b.mass)),
    )
    &&& sv2_div_ok(ssum_a(a, b), nadd(a.mass, b.mass))
    &&& fits(nadd(a.mass, a.mass))
    &&& fits(nsub(b.mass, a.mass))
    &&& sv2_scale_ok(snorm_a(a, b), nadd(a.mass, a.mass))
    &&& sv2_scale_ok(snorm_b(a, b), nsub(b.mass, a.mass))
    &&& sv2_add_ok(
        sv2_scale(snorm_a(a, b), nadd(a.mass, a.mass)),
        sv2_scale(snorm_b(a, b), nsub(b.mass, a.mass)),
    )
    &&& sv2_div_ok(ssum_b(a, b), nadd(a.mass, b.mass))
    &&& sv2_add_ok(stan_a(a, b), snew_norm_a(a, b))
    &&& sv2_add_ok(stan_b(a, b), snew_norm_b(a, b))
}

/// The pair's velocities are updated: the detection succeeds and finds
/// predicted overlap, the axis is defined, and the response's exact
/// values fit the stored range.
pub open spec fn spair_updates(a: SBody, b: SBody, dt: SRat) -> bool {
    &&& sdetect_ok(a, b, dt)
    &&& shit(a, b, dt)
    &&& saxis_ok(a, b)
    &&& !sdegenerate(a, b)
    &&& sresp_ok(a, b)
}

/// What one visited pair becomes: velocities from the elastic response
/// where `spair_updates` holds, otherwise unchanged.
pub open spec fn spair(a: SBody, b: SBody, dt: SRat) -> (SBody, SBody) {
    if spair_updates(a, b, dt) {
        (
            SBody { mass: a.mass, pos: a.pos, vel: snew_vel_a(a, b) },
            SBody { mass: b.mass, pos: b.pos, vel: snew_vel_b(a, b) },
        )
    } else {
        (a, b)
    }
}

/// Resolve the pair at indices `i`, `j` of the sequence.
pub open spec fn scollide_at(s: Seq<SBody>, dt: SRat, i: int, j: int) -> Seq<SBody> {
    (s.update(i, spair(s[i], s[j], dt).0)).update(j, spair(s[i], s[j], dt).1)
}

/// Resolve every pair from `(i, j)` on, in lexicographic index order.
/// A later pair sees the velocities already updated by earlier pairs.
pub open spec fn scollide_from(s: Seq<SBody>, dt: SRat, i: int, j: int) -> Seq<SBody>
    decreases s.len() - i, s.len() - j,
{
    if i < 0 || i >= s.len() {
        s
    } else if j >= s.len() {
        scollide_from(s, dt, i + 1, i + 2)
    } else if j <= i {
        s
    } else {
        scollide_from(scollide_at(s, dt, i, j), dt, i, j + 1)
    }
}

/// One collision pass over the whole sequence.
pub open spec fn scollide(s: Seq<SBody>, dt: SRat) -> Seq<SBody> {
    scollide_from(s, dt, 0, 1)
}

/// New velocities for a colliding pair, or `None` when the pair is left
/// alone: no predicted overlap, coinciding centers, or an exact
/// intermediate out of the stored range.
pub fn resolve_pair(a: &Body, b: &Body, dt: Rat) -> (r: Option<(V2, V2)>)
    requires
        a.wf(),
        b.wf(),
        dt.wf(),
    ensures
        r is Some <==> spair_updates(a@, b@, dt@),
        r matches Some(v) ==> v.0@ == snew_vel_a(a@, b@) && v.0.wf() && v.1@ == snew_vel_b(a@, b@)
            && v.1.wf(),
{
    // detection, on the predicted positions
    let va_dt = match a.vel.scale(dt) {
        Some(v) => v,
        None => return None,
    };
    let pa = match a.pos.vadd(va_dt) {
        Some(v) => v,
        None => return None,
    };
    let vb_dt = match b.vel.scale(dt) {
        Some(v) => v,
        None => return None,
    };
    let pb = match b.pos.vadd(vb_dt) {
        Some(v) => v,
        None => return None,
    };
    let gap = match pb.vsub(pa) {
        Some(v) => v,
        None => return None,
    };
    let dist_sq = match gap.dot(gap) {
        Some(v) => v,
        None => return None,
    };
    let rad_sum = match a.mass.add(b.mass) {
        Some(v) => v,
        None => return None,
    };
    let rad_sq = match rad_sum.mul(rad_sum) {
        Some(v) => v,
        None => return None,
    };
    if !dist_sq.le(rad_sq) {
        return None;
    }
    // response, along the axis between the current centers
    let axis = match b.pos.vsub(a.pos) {
        Some(v) => v,
        None => return None,
    };
    let len_sq = match axis.dot(axis) {
        Some(v) => v,
        None => return None,
    };
    if len_sq.is_zero() {
        return None;
    }
    let dot_a = match a.vel.dot(axis) {
        Some(v) => v,
        None => return None,
    };
    let qa = match dot_a.div(len_sq) {
        Some(v) => v,
        None => return None,
    };
    let na = match axis.scale(qa) {
        Some(v) => v,
        None => return None,
    };
    let ta = match a.vel.vsub(na) {
        Some(v) => v,
        None => return None,
    };
    let dot_b = match b.vel.dot(axis) {
        Some(v) => v,
        None => return None,
    };
    let qb = match dot_b.div(len_sq) {
        Some(v) => v,
        None => return None,
    };
    let nb = match axis.scale(qb) {
        Some(v) => v,
        None => return None,
    };
    let tb = match b.vel.vsub(nb) {
        Some(v) => v,
        None => return None,
    };
    let two_mb = match b.mass.add(b.mass) {
        Some(v) => v,
        None => return None,
    };
    let mdiff_a = match a.mass.sub(b.mass) {
        Some(v) => v,
        None => return None,
    };
    let wa1 = match nb.scale(two_mb) {
        Some(v) => v,
        None => return None,
    };
    let wa2 = match na.scale(mdiff_a) {
        Some(v) => v,
        None => return None,
    };
    let sum_a = match wa1.vadd(wa2) {
        Some(v) => v,
        None => return None,
    };
    let new_na = match sum_a.vdiv(rad_sum) {
        Some(v) => v,
        None => return None,
    };
    let two_ma = match a.mass.add(a.mass) {
        Some(v) => v,
        None => return None,
    };
    let mdiff_b = match b.mass.sub(a.mass) {
        Some(v) => v,
        None => return None,
    };
    let wb1 = match na.scale(two_ma) {
        Some(v) => v,
        None => return None,
    };
    let wb2 = match nb.scale(mdiff_b) {
        Some(v) => v,
        None => return None,
    };
    let sum_b = match wb1.vadd(wb2) {
        Some(v) => v,
        None => return None,
    };
    let new_nb = match sum_b.vdiv(rad_sum) {
        Some(v) => v,
        None => return None,
    };
    let va2 = match ta.vadd(new_na) {
        Some(v) => v,
        None => return None,
    };
    let vb2 = match tb.vadd(new_nb) {
        Some(v) => v,
        None => return None,
    };
    Some((va2, vb2))
}

proof fn lemma_views_update(s: Seq<Body>, i: int, b: Body)
    requires
        0 <= i < s.len(),
    ensures
        views(s.update(i, b)) == views(s).update(i, b@),
{
    assert(views(s.update(i, b)) =~= views(s).update(i, b@));
}

/// Visit every unordered pair once, in lexicographic index order, and
/// apply the elastic response to each pair found colliding. A later
/// pair sees velocities already updated by earlier pairs.
pub fn collide(bodies: &mut Vec<Body>, dt: Rat)
    requires
        dt.wf(),
        forall|k: int| 0 <= k < old(bodies)@.len() ==> old(bodies)@[k].wf(),
    ensures
        final(bodies)@.len() == old(bodies)@.len(),
        forall|k: int| 0 <= k < final(bodies)@.len() ==> final(bodies)@[k].wf(),
        views(final(bodies)@) == scollide(views(old(bodies)@), dt@),
{
    let ghost goal: Seq<SBody> = scollide(views(old(bodies)@), dt@);
    let n = bodies.len();
    let mut i: usize = 0;
    while i < n
        invariant
            dt.wf(),
            n == bodies@.len(),
            i <= n,
            forall|k: int| 0 <= k < n ==> bodies@[k].wf(),
            scollide_from(views(bodies@), dt@, i as int, i as int + 1) == goal,
        decreases n - i,
    {
        let mut j: usize = i + 1;
        while j < n
            invariant
                dt.wf(),
                n == bodies@.len(),
                i < n,
                i < j,
                j <= n,
                forall|k: int| 0 <= k < n ==> bodies@[k].wf(),
                scollide_from(views(bodies@), dt@, i as int, j as int) == goal,
            decreases n - j,
        {
            let a = bodies[i];
            let b = bodies[j];
            let ghost pre_b: Seq<Body> = bodies@;
            let ghost pre: Seq<SBody> = views(bodies@);
            match resolve_pair(&a, &b, dt) {
                Some((va, vb)) => {
                    let na = Body { mass: a.mass, pos: a.pos, vel: va };
                    let nb = Body { mass: b.mass, pos: b.pos, vel: vb };
                    bodies.set(i, na);
                    bodies.set(j, nb);
                    proof {
                        lemma_views_update(pre_b, i as int, na);
                        lemma_views_update(pre_b.update(i as int, na), j as int, nb);
                        assert(pre[i as int] == a@);
                        assert(pre[j as int] == b@);
                        assert(views(bodies@) == scollide_at(pre, dt@, i as int, j as int));
                    }
                },
                None => {
                    proof {
                        assert(pre[i as int] == a@);
                        assert(pre[j as int] == b@);
                        assert(pre.update(i as int, a@).update(j as int, b@) =~= pre);
                        assert(views(bodies@) == scollide_at(pre, dt@, i as int, j as int));
                    }
                },
            }
            proof {
                assert(scollide_from(pre, dt@, i as int, j as int) == scollide_from(
                    views(bodies@),
                    dt@,
                    i as int,
                    j as int + 1,
                ));
            }
            j += 1;
        }
        i += 1;
    }
}

} // verus!
