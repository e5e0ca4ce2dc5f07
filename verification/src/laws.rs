//! Conservation laws of the elastic response, and the guarantees of
//! the pairwise sweep on empty and degenerate input.

use vstd::prelude::*;

use crate::body::SBody;
use crate::body::sbody_wf;
use crate::collision::scollide;
use crate::collision::sdegenerate;
use crate::collision::slen_sq;
use crate::collision::spair;
use crate::collision::spair_updates;
use crate::rational::SRat;
use crate::rational::lemma_norm_zero;
use crate::rational::rat_lt;
use crate::rational::srat_div;
use crate::rational::srat_wf;
use crate::rational::srat_zero;
use crate::rational::nmul;
use crate::rational::nsub;
use crate::rational::rat_eq;
use crate::rational::srat_add;
use crate::rational::srat_mul;
use crate::rational::srat_sub;

verus! {

proof fn lemma_pos_mul(x: int, y: int) by (nonlinear_arith)
    requires
        x > 0,
        y > 0,
    ensures
        x * y > 0,
{
}

/// With no pair to visit, the collision pass changes nothing: zero or
/// one body means no collision resolution at all.
pub proof fn law_no_pairs(s: Seq<SBody>, dt: SRat)
    requires
        s.len() <= 1,
    ensures
        scollide(s, dt) == s,
{
    reveal_with_fuel(crate::collision::scollide_from, 3);
}

/// Two bodies whose centers coincide are skipped by the resolver: the
/// collision axis would be undefined, and both bodies come out exactly
/// as they went in.
pub proof fn law_degenerate_pair(a: SBody, b: SBody, dt: SRat)
    requires
        sbody_wf(a),
        sbody_wf(b),
        rat_eq(a.pos.x, b.pos.x),
        rat_eq(a.pos.y, b.pos.y),
    ensures
        sdegenerate(a, b),
        spair(a, b, dt) == (a, b),
        !spair_updates(a, b, dt),
{
    let rx = srat_sub(b.pos.x, a.pos.x);
    let ry = srat_sub(b.pos.y, a.pos.y);
    assert(rx.num == 0);
    assert(ry.num == 0);
    lemma_pos_mul(b.pos.x.den, a.pos.x.den);
    lemma_pos_mul(b.pos.y.den, a.pos.y.den);
    lemma_norm_zero(rx);
    lemma_norm_zero(ry);
    // the normalized axis components are zero over positive denominators
    let gx = nsub(b.pos.x, a.pos.x);
    let gy = nsub(b.pos.y, a.pos.y);
    let mx = srat_mul(gx, gx);
    let my = srat_mul(gy, gy);
    assert(mx.num == 0);
    assert(my.num == 0);
    lemma_pos_mul(gx.den, gx.den);
    lemma_pos_mul(gy.den, gy.den);
    lemma_norm_zero(mx);
    lemma_norm_zero(my);
    // so is their normalized sum, the squared axis length
    let s = srat_add(nmul(gx, gx), nmul(gy, gy));
    assert(s.num == 0);
    lemma_pos_mul(nmul(gx, gx).den, nmul(gy, gy).den);
    lemma_norm_zero(s);
    assert(slen_sq(a, b).num == 0);
}

/// Regroup a product of two pairs.
proof fn lemma_swap_mid(u: int, x: int, v: int, y: int)
    ensures
        (u * x) * (v * y) == (u * v) * (x * y),
        (u * x) * (v * y) == (v * u) * (x * y),
{
    broadcast use vstd::arithmetic::mul::group_mul_properties;

}

/// Pull a doubled factor to the front.
proof fn lemma_double_out(r: int, x: int, q: int, y: int)
    ensures
        (r * (2 * x)) * (q * y) == 2 * ((x * y) * (r * q)),
{
    broadcast use vstd::arithmetic::mul::group_mul_properties;

}

/// Move a squared factor out of a doubled product.
proof fn lemma_square_out(u: int, v: int, w: int)
    ensures
        2 * ((u * v) * w) == v * ((2 * u) * w),
{
    broadcast use vstd::arithmetic::mul::group_mul_properties;

}

/// Move the shared factor of a scaled product to the front.
proof fn lemma_pull_out(p: int, z: int, s: int, v: int)
    ensures
        (p * z) * (s * v) == v * ((p * s) * z),
{
    broadcast use vstd::arithmetic::mul::group_mul_properties;

}

/// Product reordering used to close the common-denominator lemma, over
/// opaque factors.
proof fn lemma_flat_glue(w: int, x: int, y: int, t: int, z: int)
    ensures
        ((x * w) * y) * (t * z) == w * (((t * (x * y)) * z)),
{
    broadcast use vstd::arithmetic::mul::group_mul_properties;

}

/// Factor the shared denominator out of a mass-weighted sum, over
/// opaque factors.
proof fn lemma_factor_once(a: int, w1: int, d: int, c: int, w2: int, b: int, z: int)
    ensures
        (a * w1) * (d * z) + (c * w2) * (b * z) == ((a * d) * w1 + (c * b) * w2) * z,
{
    broadcast use vstd::arithmetic::mul::group_mul_properties;

}

/// The final cross-multiplied momentum equation, over opaque factors.
proof fn lemma_mom_glue(s: int, k: int, q: int, t: int, b: int, d: int)
    ensures
        ((s * k) * ((q * t) * s)) * ((b * q) * (d * t)) == k * ((b * ((q * t) * s)) * (d * ((q * t)
            * s))),
{
    broadcast use vstd::arithmetic::mul::group_mul_properties;

}

/// Momentum of the one-dimensional response, over integers: the scaled
/// responses balance against the mass-weighted sum.
proof fn lemma_momentum_int(m1: int, m2: int, u1: int, u2: int)
    ensures
        m1 * (2 * m2 * u2 + u1 * (m1 - m2)) + m2 * (2 * m1 * u1 + u2 * (m2 - m1)) == (m1 + m2) * (
        m1 * u1 + m2 * u2),
{
    broadcast use vstd::arithmetic::mul::group_mul_properties;

}

/// Equal values stay equal under multiplication.
proof fn lemma_mul_congr(x: SRat, x2: SRat, y: SRat, y2: SRat)
    requires
        rat_eq(x, x2),
        rat_eq(y, y2),
    ensures
        rat_eq(srat_mul(x, y), srat_mul(x2, y2)),
{
    broadcast use vstd::arithmetic::mul::group_mul_properties;

    assert((x.num * y.num) * (x2.den * y2.den) == (x.num * x2.den) * (y.num * y2.den));
    assert((x2.num * y2.num) * (x.den * y.den) == (x2.num * x.den) * (y2.num * y.den));
}

/// Equal values stay equal under addition.
proof fn lemma_add_congr(x: SRat, x2: SRat, y: SRat, y2: SRat)
    requires
        rat_eq(x, x2),
        rat_eq(y, y2),
    ensures
        rat_eq(srat_add(x, y), srat_add(x2, y2)),
{
    broadcast use vstd::arithmetic::mul::group_mul_properties;

    assert((x.num * y.den + y.num * x.den) * (x2.den * y2.den) == (x.num * x2.den) * (y.den
        * y2.den) + (y.num * y2.den) * (x.den * x2.den));
    assert((x2.num * y2.den + y2.num * x2.den) * (x.den * y.den) == (x2.num * x.den) * (y.den
        * y2.den) + (y2.num * y.den) * (x.den * x2.den));
}

proof fn lemma_cancel(a: int, b: int, k: int) by (nonlinear_arith)
    requires
        a * k == b * k,
        k != 0,
    ensures
        a == b,
{
}

/// Value equality is transitive through a value whose denominator is
/// not zero.
proof fn lemma_rat_eq_trans(x: SRat, y: SRat, z: SRat)
    requires
        rat_eq(x, y),
        rat_eq(y, z),
        y.den != 0,
    ensures
        rat_eq(x, z),
{
    broadcast use vstd::arithmetic::mul::group_mul_properties;

    assert((x.num * z.den) * y.den == (x.num * y.den) * z.den);
    assert((y.num * x.den) * z.den == (y.num * z.den) * x.den);
    assert((z.num * y.den) * x.den == (z.num * x.den) * y.den);
    lemma_cancel(x.num * z.den, z.num * x.den, y.den);
}

/// The one-dimensional elastic response for the first body:
/// `(2*m2*u2 + u1*(m1 - m2)) / (m1 + m2)`. Each axis component of the
/// first new normal velocity in the collision resolver is exactly this
/// value, brought to lowest terms.
pub open spec fn selastic_first(m1: SRat, m2: SRat, u1: SRat, u2: SRat) -> SRat {
    srat_div(
        srat_add(srat_mul(u2, srat_add(m2, m2)), srat_mul(u1, srat_sub(m1, m2))),
        srat_add(m1, m2),
    )
}

/// The same response for the second body:
/// `(2*m1*u1 + u2*(m2 - m1)) / (m1 + m2)`.
pub open spec fn selastic_second(m1: SRat, m2: SRat, u1: SRat, u2: SRat) -> SRat {
    srat_div(
        srat_add(srat_mul(u1, srat_add(m1, m1)), srat_mul(u2, srat_sub(m2, m1))),
        srat_add(m1, m2),
    )
}

/// The elastic response over a common denominator: equal in value to
/// the dividing form, with both bodies' results sharing one
/// denominator.
spec fn sflat_first(m1: SRat, m2: SRat, u1: SRat, u2: SRat) -> SRat {
    SRat {
        num: 2 * (m2.num * m1.den) * (u2.num * u1.den) + (u1.num * u2.den) * ((m1.num * m2.den) - (
        m2.num * m1.den)),
        den: (u1.den * u2.den) * ((m1.num * m2.den) + (m2.num * m1.den)),
    }
}

spec fn sflat_second(m1: SRat, m2: SRat, u1: SRat, u2: SRat) -> SRat {
    SRat {
        num: 2 * (m1.num * m2.den) * (u1.num * u2.den) + (u2.num * u1.den) * ((m2.num * m1.den) - (
        m1.num * m2.den)),
        den: (u1.den * u2.den) * ((m1.num * m2.den) + (m2.num * m1.den)),
    }
}

proof fn lemma_flat_first(m1: SRat, m2: SRat, u1: SRat, u2: SRat)
    requires
        rat_lt(srat_zero(), m1),
        rat_lt(srat_zero(), m2),
        srat_wf(m1),
        srat_wf(m2),
    ensures
        rat_eq(selastic_first(m1, m2, u1, u2), sflat_first(m1, m2, u1, u2)),
{
    let a = m1.num;
    let b = m1.den;
    let c = m2.num;
    let d = m2.den;
    let p = u1.num;
    let q = u1.den;
    let r = u2.num;
    let s = u2.den;
    lemma_pos_mul(a, d);
    lemma_pos_mul(c, b);
    let e = selastic_first(m1, m2, u1, u2);
    let w1p = 2 * (c * b) * (r * q);
    let w2p = (p * s) * ((a * d) - (c * b));
    let x1 = (r * (c * d + c * d)) * (q * (b * d));
    let x2 = (p * (a * d - c * b)) * (s * (d * d));
    assert(e.num == (x1 + x2) * (b * d));
    assert(e.den == ((s * (d * d)) * (q * (b * d))) * (a * d + c * b));
    assert(c * d + c * d == 2 * (c * d));
    lemma_double_out(r, c * d, q, b * d);
    assert(x1 == 2 * (((c * d) * (b * d)) * (r * q)));
    lemma_swap_mid(c, d, b, d);
    assert(x1 == 2 * (((c * b) * (d * d)) * (r * q)));
    lemma_square_out(c * b, d * d, r * q);
    assert(x1 == (d * d) * w1p);
    lemma_pull_out(p, (a * d) - (c * b), s, d * d);
    assert(x2 == (d * d) * w2p);
    vstd::arithmetic::mul::lemma_mul_is_distributive_add(d * d, w1p, w2p);
    assert(x1 + x2 == (d * d) * (w1p + w2p));
    lemma_swap_mid(s, d * d, q, b * d);
    assert(e.den == ((q * s) * ((d * d) * (b * d))) * (a * d + c * b));
    let w = w1p + w2p;
    assert(e.num == ((d * d) * w) * (b * d));
    lemma_flat_glue(w, d * d, b * d, q * s, (a * d) + (c * b));
}

proof fn lemma_flat_second(m1: SRat, m2: SRat, u1: SRat, u2: SRat)
    requires
        rat_lt(srat_zero(), m1),
        rat_lt(srat_zero(), m2),
        srat_wf(m1),
        srat_wf(m2),
    ensures
        rat_eq(selastic_second(m1, m2, u1, u2), sflat_second(m1, m2, u1, u2)),
{
    let a = m1.num;
    let b = m1.den;
    let c = m2.num;
    let d = m2.den;
    let p = u1.num;
    let q = u1.den;
    let r = u2.num;
    let s = u2.den;
    lemma_pos_mul(a, d);
    lemma_pos_mul(c, b);
    let e = selastic_second(m1, m2, u1, u2);
    let w1p = 2 * (a * d) * (p * s);
    let w2p = (r * q) * ((c * b) - (a * d));
    let x1 = (p * (a * b + a * b)) * (s * (d * b));
    let x2 = (r * (c * b - a * d)) * (q * (b * b));
    assert(e.num == (x1 + x2) * (b * d));
    assert(e.den == ((q * (b * b)) * (s * (d * b))) * (a * d + c * b));
    assert(a * b + a * b == 2 * (a * b));
    lemma_double_out(p, a * b, s, d * b);
    assert(x1 == 2 * (((a * b) * (d * b)) * (p * s)));
    lemma_swap_mid(a, b, d, b);
    assert(x1 == 2 * (((a * d) * (b * b)) * (p * s)));
    lemma_square_out(a * d, b * b, p * s);
    assert(x1 == (b * b) * w1p);
    lemma_pull_out(r, (c * b) - (a * d), q, b * b);
    assert(x2 == (b * b) * w2p);
    vstd::arithmetic::mul::lemma_mul_is_distributive_add(b * b, w1p, w2p);
    assert(x1 + x2 == (b * b) * (w1p + w2p));
    lemma_swap_mid(q, b * b, s, d * b);
    vstd::arithmetic::mul::lemma_mul_is_commutative(d, b);
    assert(e.den == ((q * s) * ((b * b) * (b * d))) * (a * d + c * b));
    let w = w1p + w2p;
    assert(e.num == ((b * b) * w) * (b * d));
    lemma_flat_glue(w, b * b, b * d, q * s, (a * d) + (c * b));
}

/// Momentum conservation: the one-dimensional elastic response keeps
/// the total momentum `m1*u1 + m2*u2` unchanged. The collision
/// resolver applies this response to each axis component of the two
/// velocities' normal parts, so the pair's momentum along the collision
/// normal is the same before and after.
pub proof fn law_momentum(m1: SRat, m2: SRat, u1: SRat, u2: SRat)
    requires
        rat_lt(srat_zero(), m1),
        rat_lt(srat_zero(), m2),
        srat_wf(m1),
        srat_wf(m2),
        srat_wf(u1),
        srat_wf(u2),
    ensures
        rat_eq(
            srat_add(
                srat_mul(m1, selastic_first(m1, m2, u1, u2)),
                srat_mul(m2, selastic_second(m1, m2, u1, u2)),
            ),
            srat_add(srat_mul(m1, u1), srat_mul(m2, u2)),
        ),
{
    let a = m1.num;
    let b = m1.den;
    let c = m2.num;
    let d = m2.den;
    let p = u1.num;
    let q = u1.den;
    let r = u2.num;
    let s = u2.den;
    lemma_pos_mul(a, d);
    lemma_pos_mul(c, b);
    let e1 = selastic_first(m1, m2, u1, u2);
    let e2 = selastic_second(m1, m2, u1, u2);
    let f1 = sflat_first(m1, m2, u1, u2);
    let f2 = sflat_second(m1, m2, u1, u2);
    lemma_flat_first(m1, m2, u1, u2);
    lemma_flat_second(m1, m2, u1, u2);
    // momentum over the common-denominator forms
    let w1 = 2 * (c * b) * (r * q) + (p * s) * ((a * d) - (c * b));
    let w2 = 2 * (a * d) * (p * s) + (r * q) * ((c * b) - (a * d));
    let ss = (a * d) + (c * b);
    let z = (q * s) * ss;
    let k = (a * d) * (p * s) + (c * b) * (r * q);
    let lf = srat_add(srat_mul(m1, f1), srat_mul(m2, f2));
    let rh = srat_add(srat_mul(m1, u1), srat_mul(m2, u2));
    assert(lf.num == (a * w1) * (d * z) + (c * w2) * (b * z));
    assert(lf.den == (b * z) * (d * z));
    lemma_factor_once(a, w1, d, c, w2, b, z);
    lemma_momentum_int(a * d, c * b, p * s, r * q);
    assert(lf.num == (ss * k) * z);
    lemma_swap_mid(a, p, d, s);
    lemma_swap_mid(c, r, b, q);
    assert(rh.num == k);
    assert(rh.den == (b * q) * (d * s));
    lemma_mom_glue(ss, k, q, s, b, d);
    assert(lf.num * rh.den == rh.num * lf.den);
    // carry the equality back to the dividing forms
    lemma_mul_congr(m1, m1, e1, f1);
    lemma_mul_congr(m2, m2, e2, f2);
    lemma_add_congr(srat_mul(m1, e1), srat_mul(m1, f1), srat_mul(m2, e2), srat_mul(m2, f2));
    let le = srat_add(srat_mul(m1, e1), srat_mul(m2, e2));
    lemma_pos_mul(q, s);
    lemma_pos_mul(q * s, ss);
    lemma_pos_mul(b, z);
    lemma_pos_mul(d, z);
    lemma_pos_mul(b * z, d * z);
    assert(lf.den != 0);
    lemma_rat_eq_trans(le, lf, rh);
}

/// Difference of squares, shifted.
proof fn lemma_sq_split(x: int, y: int)
    ensures
        x * x == (x - y) * (x + y) + y * y,
{
    broadcast use vstd::arithmetic::mul::group_mul_properties;

}

/// A shared right factor comes out of a weighted sum.
proof fn lemma_pair_weighted(a: int, x: int, b: int, y: int, t: int)
    ensures
        a * (x * t) + b * (y * t) == (a * x + b * y) * t,
{
    broadcast use vstd::arithmetic::mul::group_mul_properties;

}

/// A shared scale comes out of a weighted sum.
proof fn lemma_scale_sum(a: int, s: int, x: int, b: int, y: int)
    ensures
        a * (s * x) + b * (s * y) == s * (a * x + b * y),
{
    broadcast use vstd::arithmetic::mul::group_mul_properties;

}

/// A shared squared scale comes out of a weighted sum of squares.
proof fn lemma_sq_scale(a: int, s: int, x: int, b: int, y: int)
    ensures
        a * ((s * x) * (s * x)) + b * ((s * y) * (s * y)) == (s * s) * (a * (x * x) + b * (y * y)),
{
    broadcast use vstd::arithmetic::mul::group_mul_properties;

}

/// Energy of the one-dimensional response, over integers: derived from
/// momentum and the reversal of the relative velocity.
proof fn lemma_energy_int(m1: int, m2: int, u1: int, u2: int)
    ensures
        m1 * ((2 * m2 * u2 + u1 * (m1 - m2)) * (2 * m2 * u2 + u1 * (m1 - m2))) + m2 * ((2 * m1 * u1
            + u2 * (m2 - m1)) * (2 * m1 * u1 + u2 * (m2 - m1))) == ((m1 + m2) * (m1 + m2)) * (m1 * (
        u1 * u1) + m2 * (u2 * u2)),
{
    let w1 = 2 * m2 * u2 + u1 * (m1 - m2);
    let w2 = 2 * m1 * u1 + u2 * (m2 - m1);
    let s = m1 + m2;
    lemma_momentum_int(m1, m2, u1, u2);
    assert(w1 + s * u1 == w2 + s * u2) by {
        broadcast use vstd::arithmetic::mul::group_mul_properties;

    };
    let t = w1 + s * u1;
    lemma_sq_split(w1, s * u1);
    lemma_sq_split(w2, s * u2);
    assert(w2 * w2 == (w2 - s * u2) * t + (s * u2) * (s * u2));
    vstd::arithmetic::mul::lemma_mul_is_distributive_add(m1, (w1 - s * u1) * t, (s * u1) * (s
        * u1));
    vstd::arithmetic::mul::lemma_mul_is_distributive_add(m2, (w2 - s * u2) * t, (s * u2) * (s
        * u2));
    lemma_pair_weighted(m1, w1 - s * u1, m2, w2 - s * u2, t);
    vstd::arithmetic::mul::lemma_mul_is_distributive_sub(m1, w1, s * u1);
    vstd::arithmetic::mul::lemma_mul_is_distributive_sub(m2, w2, s * u2);
    lemma_scale_sum(m1, s, u1, m2, u2);
    assert(m1 * (w1 - s * u1) + m2 * (w2 - s * u2) == 0);
    assert(0 * t == 0);
    assert((m1 * (w1 - s * u1) + m2 * (w2 - s * u2)) * t == 0);
    lemma_sq_scale(m1, s, u1, m2, u2);
    assert(m1 * (w1 * w1) + m2 * (w2 * w2) == (m1 * ((w1 - s * u1) * t) + m2 * ((w2 - s * u2)
        * t)) + (m1 * ((s * u1) * (s * u1)) + m2 * ((s * u2) * (s * u2))));
    assert(m1 * (w1 * w1) + m2 * (w2 * w2) == (s * s) * (m1 * (u1 * u1) + m2 * (u2 * u2)));
}

proof fn lemma_factor_twice(a: int, w1: int, d: int, c: int, w2: int, b: int, z: int)
    ensures
        (a * (w1 * w1)) * (d * (z * z)) + (c * (w2 * w2)) * (b * (z * z)) == ((a * d) * (w1 * w1)
            + (c * b) * (w2 * w2)) * (z * z),
{
    broadcast use vstd::arithmetic::mul::group_mul_properties;

}

proof fn lemma_energy_glue(s: int, k: int, q: int, t: int, b: int, d: int)
    ensures
        (((s * s) * k) * (((q * t) * s) * ((q * t) * s))) * ((b * (q * q)) * (d * (t * t))) == k * (
        (b * (((q * t) * s) * ((q * t) * s))) * (d * (((q * t) * s) * ((q * t) * s)))),
{
    broadcast use vstd::arithmetic::mul::group_mul_properties;

}

proof fn lemma_energy_rh_shape(a: int, x: int, d: int, y: int)
    ensures
        (a * (x * x)) * (d * (y * y)) == (a * d) * ((x * y) * (x * y)),
{
    broadcast use vstd::arithmetic::mul::group_mul_properties;

}

/// Energy conservation: the one-dimensional elastic response keeps the
/// total kinetic energy `m1*u1*u1 + m2*u2*u2` unchanged (the factor one
/// half is dropped from both sides). Applied to each axis component of
/// the normal parts, this is conservation of the kinetic energy along
/// the collision normal; the tangential parts are not touched at all.
pub proof fn law_energy(m1: SRat, m2: SRat, u1: SRat, u2: SRat)
    requires
        rat_lt(srat_zero(), m1),
        rat_lt(srat_zero(), m2),
        srat_wf(m1),
        srat_wf(m2),
        srat_wf(u1),
        srat_wf(u2),
    ensures
        rat_eq(
            srat_add(
                srat_mul(
                    m1,
                    srat_mul(selastic_first(m1, m2, u1, u2), selastic_first(m1, m2, u1, u2)),
                ),
                srat_mul(
                    m2,
                    srat_mul(selastic_second(m1, m2, u1, u2), selastic_second(m1, m2, u1, u2)),
                ),
            ),
            srat_add(srat_mul(m1, srat_mul(u1, u1)), srat_mul(m2, srat_mul(u2, u2))),
        ),
{
    let a = m1.num;
    let b = m1.den;
    let c = m2.num;
    let d = m2.den;
    let p = u1.num;
    let q = u1.den;
    let r = u2.num;
    let s = u2.den;
    lemma_pos_mul(a, d);
    lemma_pos_mul(c, b);
    let e1 = selastic_first(m1, m2, u1, u2);
    let e2 = selastic_second(m1, m2, u1, u2);
    let f1 = sflat_first(m1, m2, u1, u2);
    let f2 = sflat_second(m1, m2, u1, u2);
    lemma_flat_first(m1, m2, u1, u2);
    lemma_flat_second(m1, m2, u1, u2);
    // energy over the common-denominator forms
    let w1 = 2 * (c * b) * (r * q) + (p * s) * ((a * d) - (c * b));
    let w2 = 2 * (a * d) * (p * s) + (r * q) * ((c * b) - (a * d));
    let ss = (a * d) + (c * b);
    let z = (q * s) * ss;
    let ke = (a * d) * ((p * s) * (p * s)) + (c * b) * ((r * q) * (r * q));
    let lf = srat_add(srat_mul(m1, srat_mul(f1, f1)), srat_mul(m2, srat_mul(f2, f2)));
    let rh = srat_add(srat_mul(m1, srat_mul(u1, u1)), srat_mul(m2, srat_mul(u2, u2)));
    assert(lf.num == (a * (w1 * w1)) * (d * (z * z)) + (c * (w2 * w2)) * (b * (z * z)));
    assert(lf.den == (b * (z * z)) * (d * (z * z)));
    lemma_factor_twice(a, w1, d, c, w2, b, z);
    lemma_energy_int(a * d, c * b, p * s, r * q);
    assert(lf.num == ((ss * ss) * ke) * (z * z));
    lemma_energy_rh_shape(a, p, d, s);
    lemma_energy_rh_shape(c, r, b, q);
    assert(rh.num == ke);
    assert(rh.den == (b * (q * q)) * (d * (s * s)));
    lemma_energy_glue(ss, ke, q, s, b, d);
    assert(lf.num * rh.den == rh.num * lf.den);
    // carry the equality back to the dividing forms
    lemma_mul_congr(e1, f1, e1, f1);
    lemma_mul_congr(e2, f2, e2, f2);
    lemma_mul_congr(m1, m1, srat_mul(e1, e1), srat_mul(f1, f1));
    lemma_mul_congr(m2, m2, srat_mul(e2, e2), srat_mul(f2, f2));
    lemma_add_congr(
        srat_mul(m1, srat_mul(e1, e1)),
        srat_mul(m1, srat_mul(f1, f1)),
        srat_mul(m2, srat_mul(e2, e2)),
        srat_mul(m2, srat_mul(f2, f2)),
    );
    let le = srat_add(srat_mul(m1, srat_mul(e1, e1)), srat_mul(m2, srat_mul(e2, e2)));
    lemma_pos_mul(q, s);
    lemma_pos_mul(q * s, ss);
    lemma_pos_mul(z, z);
    lemma_pos_mul(b, z * z);
    lemma_pos_mul(d, z * z);
    lemma_pos_mul(b * (z * z), d * (z * z));
    assert(lf.den != 0);
    lemma_rat_eq_trans(le, lf, rh);
}

} // verus!
