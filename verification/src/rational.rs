//! Exact rational scalars.
//!
//! A `Rat` stores a numerator and a positive denominator in `i64`; its
//! mathematical value is the ghost `SRat`. Arithmetic is exact: an
//! operation returns `None` exactly when the exact result does not fit
//! the stored range, so nothing is ever rounded.

use vstd::prelude::*;

use vstd::arithmetic::div_mod::lemma_add_mod_noop;
use vstd::arithmetic::div_mod::lemma_div_multiples_vanish;
use vstd::arithmetic::div_mod::lemma_fundamental_div_mod;
use vstd::arithmetic::div_mod::lemma_mod_self_0;
use vstd::arithmetic::div_mod::lemma_mul_mod_noop_left;
use vstd::arithmetic::div_mod::lemma_small_mod;
use vstd::arithmetic::mul::lemma_mul_strictly_positive;
use vstd::arithmetic::mul::lemma_mul_unary_negation;

verus! {

/// A rational number as a mathematical value: `num / den`, meaningful
/// when `den > 0`.
pub ghost struct SRat {
    pub num: int,
    pub den: int,
}

/// Largest magnitude a stored numerator or denominator may take.
pub open spec fn coeff_max() -> int {
    0x7fff_ffff_ffff_ffff
}

/// The denominator is positive, so the value is well defined.
pub open spec fn srat_wf(a: SRat) -> bool {
    a.den > 0
}

/// Both coefficients fit the stored range and the denominator is positive.
pub open spec fn fits(a: SRat) -> bool {
    &&& -coeff_max() <= a.num <= coeff_max()
    &&& 0 < a.den <= coeff_max()
}

pub open spec fn srat_zero() -> SRat {
    SRat { num: 0, den: 1 }
}

/// Equality of rational values, by cross multiplication.
pub open spec fn rat_eq(a: SRat, b: SRat) -> bool {
    a.num * b.den == b.num * a.den
}

pub open spec fn rat_le(a: SRat, b: SRat) -> bool {
    a.num * b.den <= b.num * a.den
}

pub open spec fn rat_lt(a: SRat, b: SRat) -> bool {
    a.num * b.den < b.num * a.den
}

pub open spec fn srat_add(a: SRat, b: SRat) -> SRat {
    SRat { num: a.num * b.den + b.num * a.den, den: a.den * b.den }
}

pub open spec fn srat_sub(a: SRat, b: SRat) -> SRat {
    SRat { num: a.num * b.den - b.num * a.den, den: a.den * b.den }
}

pub open spec fn srat_neg(a: SRat) -> SRat {
    SRat { num: -a.num, den: a.den }
}

pub open spec fn srat_mul(a: SRat, b: SRat) -> SRat {
    SRat { num: a.num * b.num, den: a.den * b.den }
}

/// Reciprocal, with the sign moved into the numerator.
/// Meaningful only when `a.num != 0`.
pub open spec fn srat_inv(a: SRat) -> SRat {
    if a.num >= 0 {
        SRat { num: a.den, den: a.num }
    } else {
        SRat { num: -a.den, den: -a.num }
    }
}

pub open spec fn srat_div(a: SRat, b: SRat) -> SRat {
    srat_mul(a, srat_inv(b))
}

/// The value `num / den` with the sign moved into the numerator.
pub open spec fn ratio(num: int, den: int) -> SRat {
    if den >= 0 {
        SRat { num: num, den: den }
    } else {
        SRat { num: -num, den: -den }
    }
}

/// Magnitude of an integer.
pub open spec fn mag(a: int) -> nat {
    if a >= 0 {
        a as nat
    } else {
        (-a) as nat
    }
}

/// Greatest common divisor, by Euclid's rule.
pub open spec fn gcd(a: nat, b: nat) -> nat
    decreases b,
{
    if b == 0 {
        a
    } else {
        gcd(b, a % b)
    }
}

/// The lowest-terms form of a rational: numerator and denominator
/// divided by their greatest common divisor. Every stored value is
/// kept in this form, so denominators do not grow across steps.
pub open spec fn rat_norm(a: SRat) -> SRat {
    let g = gcd(mag(a.num), mag(a.den)) as int;
    SRat { num: a.num / g, den: a.den / g }
}

/// The exact sum, in lowest terms: what addition stores when it fits.
pub open spec fn nadd(a: SRat, b: SRat) -> SRat {
    rat_norm(srat_add(a, b))
}

pub open spec fn nsub(a: SRat, b: SRat) -> SRat {
    rat_norm(srat_sub(a, b))
}

pub open spec fn nmul(a: SRat, b: SRat) -> SRat {
    rat_norm(srat_mul(a, b))
}

pub open spec fn ndiv(a: SRat, b: SRat) -> SRat {
    rat_norm(srat_div(a, b))
}

/// Euclid's gcd is positive and divides both arguments.
proof fn lemma_gcd(a: nat, b: nat)
    requires
        a > 0 || b > 0,
    ensures
        gcd(a, b) > 0,
        a as int % (gcd(a, b) as int) == 0,
        b as int % (gcd(a, b) as int) == 0,
    decreases b,
{
    let g = gcd(a, b) as int;
    if b == 0 {
        lemma_mod_self_0(a as int);
        lemma_small_mod(0, a);
    } else {
        lemma_gcd(b, a % b);
        let q = a as int / b as int;
        lemma_fundamental_div_mod(a as int, b as int);
        lemma_mul_mod_noop_left(b as int, q, g);
        lemma_small_mod(0, g as nat);
        lemma_add_mod_noop(b as int * q, a as int % b as int, g);
    }
}

/// Dividing out an exact divisor of a magnitude commutes with the
/// sign, and keeps a positive value positive.
proof fn lemma_exact_div(m: int, g: int)
    requires
        g > 0,
        m >= 0,
        m % g == 0,
    ensures
        (-m) / g == -(m / g),
        m >= 1 ==> m / g >= 1,
{
    lemma_fundamental_div_mod(m, g);
    let k = m / g;
    lemma_mul_unary_negation(g, k);
    lemma_div_multiples_vanish(-k, g);
    if m >= 1 {
        if k <= 0 {
            if k < 0 {
                lemma_mul_strictly_positive(g, -k);
                lemma_mul_unary_negation(g, k);
            }
            assert(false);
        }
    }
}

/// A zero numerator stays zero in lowest terms, and the reduced
/// denominator of a well-formed value is positive.
pub proof fn lemma_norm_zero(a: SRat)
    requires
        a.num == 0,
        a.den > 0,
    ensures
        rat_norm(a).num == 0,
        rat_norm(a).den >= 1,
{
    lemma_gcd(mag(a.num), mag(a.den));
    let g = gcd(mag(a.num), mag(a.den)) as int;
    lemma_exact_div(a.num, g);
    lemma_exact_div(a.den, g);
    assert(a.num / g == -((-a.num) / g));
}

proof fn lemma_wide_mul_bounds(a: int, b: int) by (nonlinear_arith)
    requires
        -0x8000_0000_0000_0000 <= a <= 0x7fff_ffff_ffff_ffff,
        -0x8000_0000_0000_0000 <= b <= 0x7fff_ffff_ffff_ffff,
    ensures
        -0x4000_0000_0000_0000_0000_0000_0000_0000 <= a * b
            <= 0x4000_0000_0000_0000_0000_0000_0000_0000,
        -0x7fff_ffff_ffff_ffff <= a <= 0x7fff_ffff_ffff_ffff
            && -0x7fff_ffff_ffff_ffff <= b <= 0x7fff_ffff_ffff_ffff
            ==> -0x3fff_ffff_ffff_ffff_0000_0000_0000_0001 <= a * b
                <= 0x3fff_ffff_ffff_ffff_0000_0000_0000_0001,
        a >= 1 && b >= 1 ==> a * b >= 1,
        a >= 1 && b <= -1 ==> a * b <= -1,
{
}

proof fn lemma_mul_neg(a: int, b: int) by (nonlinear_arith)
    ensures
        a * (-b) == -(a * b),
{
}

/// Widening product of two stored coefficients, with the bounds callers need.
fn wide_mul(a: i64, b: i64) -> (r: i128)
    ensures
        r == a * b,
        -0x4000_0000_0000_0000_0000_0000_0000_0000 <= r
            <= 0x4000_0000_0000_0000_0000_0000_0000_0000,
        -0x7fff_ffff_ffff_ffff <= a && -0x7fff_ffff_ffff_ffff <= b
            ==> -0x3fff_ffff_ffff_ffff_0000_0000_0000_0001 <= r
                <= 0x3fff_ffff_ffff_ffff_0000_0000_0000_0001,
        a >= 1 && b >= 1 ==> r >= 1,
        a >= 1 && b <= -1 ==> r <= -1,
{
    let wa: i128 = a as i128;
    let wb: i128 = b as i128;
    proof {
        lemma_wide_mul_bounds(wa as int, wb as int);
    }
    wa * wb
}

/// Euclid's algorithm.
fn gcd_wide(a0: u128, b0: u128) -> (g: u128)
    ensures
        g as nat == gcd(a0 as nat, b0 as nat),
{
    let mut a = a0;
    let mut b = b0;
    while b != 0
        invariant
            gcd(a as nat, b as nat) == gcd(a0 as nat, b0 as nat),
        decreases b,
    {
        let t = a % b;
        a = b;
        b = t;
    }
    a
}

/// Bring an exact value computed in wide arithmetic to lowest terms
/// and accept it if the reduced form fits the stored range.
fn from_wide(n: i128, d: i128) -> (r: Option<Rat>)
    requires
        d >= 1,
        n > -0x8000_0000_0000_0000_0000_0000_0000_0000,
    ensures
        r is Some <==> fits(rat_norm((SRat { num: n as int, den: d as int }))),
        r matches Some(v) ==> v@ == rat_norm((SRat { num: n as int, den: d as int })) && v.wf(),
{
    let neg = n < 0;
    let un: u128 = if neg {
        (-n) as u128
    } else {
        n as u128
    };
    let ud: u128 = d as u128;
    let g = gcd_wide(un, ud);
    proof {
        assert(un as nat == mag(n as int));
        assert(ud as nat == mag(d as int));
        lemma_gcd(un as nat, ud as nat);
        lemma_exact_div(un as int, g as int);
        lemma_exact_div(ud as int, g as int);
    }
    let rn = un / g;
    let rd = ud / g;
    proof {
        if neg {
            assert(n as int == -(un as int));
            assert((n as int) / (g as int) == -(rn as int));
        }
    }
    if rn <= 0x7fff_ffff_ffff_ffff && rd <= 0x7fff_ffff_ffff_ffff {
        let num: i64 = if neg {
            -(rn as i64)
        } else {
            rn as i64
        };
        Some(Rat { num, den: rd as i64 })
    } else {
        None
    }
}

/// An exact rational scalar: numerator over positive denominator.
#[derive(Clone, Copy, Debug, PartialEq, Eq, Structural)]
pub struct Rat {
    num: i64,
    den: i64,
}

impl View for Rat {
    type V = SRat;

    closed spec fn view(&self) -> SRat {
        SRat { num: self.num as int, den: self.den as int }
    }
}

impl Rat {
    pub open spec fn wf(self) -> bool {
        fits(self@)
    }

    /// The value `num / den`; `None` when `den` is zero or the
    /// sign-normalized pair does not fit the stored range.
    pub fn new(num: i64, den: i64) -> (r: Option<Rat>)
        ensures
            r is Some <==> den != 0 && fits(rat_norm(ratio(num as int, den as int))),
            r matches Some(v) ==> v@ == rat_norm(ratio(num as int, den as int)) && v.wf(),
    {
        if den == 0 {
            return None;
        }
        let mut n: i128 = num as i128;
        let mut d: i128 = den as i128;
        if d < 0 {
            n = -n;
            d = -d;
        }
        from_wide(n, d)
    }

    pub fn zero() -> (r: Rat)
        ensures
            r@ == srat_zero(),
            r.wf(),
    {
        Rat { num: 0, den: 1 }
    }

    pub fn num(self) -> (n: i64)
        ensures
            n as int == self@.num,
    {
        self.num
    }

    pub fn den(self) -> (d: i64)
        ensures
            d as int == self@.den,
    {
        self.den
    }

    pub fn is_zero(self) -> (r: bool)
        ensures
            r == (self@.num == 0),
    {
        self.num == 0
    }

    pub fn neg(self) -> (r: Rat)
        requires
            self.wf(),
        ensures
            r@ == srat_neg(self@),
            r.wf(),
    {
        Rat { num: -self.num, den: self.den }
    }

    pub fn add(self, other: Rat) -> (r: Option<Rat>)
        requires
            self.wf(),
            other.wf(),
        ensures
            r is Some <==> fits(nadd(self@, other@)),
            r matches Some(v) ==> v@ == nadd(self@, other@) && v.wf(),
    {
        let p1: i128 = wide_mul(self.num, other.den);
        let p2: i128 = wide_mul(other.num, self.den);
        let d: i128 = wide_mul(self.den, other.den);
        from_wide(p1 + p2, d)
    }

    pub fn sub(self, other: Rat) -> (r: Option<Rat>)
        requires
            self.wf(),
            other.wf(),
        ensures
            r is Some <==> fits(nsub(self@, other@)),
            r matches Some(v) ==> v@ == nsub(self@, other@) && v.wf(),
    {
        let p1: i128 = wide_mul(self.num, other.den);
        let p2: i128 = wide_mul(other.num, self.den);
        let d: i128 = wide_mul(self.den, other.den);
        from_wide(p1 - p2, d)
    }

    pub fn mul(self, other: Rat) -> (r: Option<Rat>)
        requires
            self.wf(),
            other.wf(),
        ensures
            r is Some <==> fits(nmul(self@, other@)),
            r matches Some(v) ==> v@ == nmul(self@, other@) && v.wf(),
    {
        let n: i128 = wide_mul(self.num, other.num);
        let d: i128 = wide_mul(self.den, other.den);
        from_wide(n, d)
    }

    /// Exact division; `None` when the divisor is zero or the exact
    /// quotient does not fit the stored range.
    pub fn div(self, other: Rat) -> (r: Option<Rat>)
        requires
            self.wf(),
            other.wf(),
        ensures
            r is Some <==> other@.num != 0 && fits(ndiv(self@, other@)),
            r matches Some(v) ==> v@ == ndiv(self@, other@) && v.wf(),
    {
        if other.num == 0 {
            return None;
        }
        let n0: i128 = wide_mul(self.num, other.den);
        let d0: i128 = wide_mul(self.den, other.num);
        if d0 >= 1 {
            from_wide(n0, d0)
        } else {
            proof {
                lemma_mul_neg(self@.num, other@.den);
                lemma_mul_neg(self@.den, other@.num);
            }
            from_wide(-n0, -d0)
        }
    }

    pub fn le(self, other: Rat) -> (r: bool)
        ensures
            r == rat_le(self@, other@),
    {
        wide_mul(self.num, other.den) <= wide_mul(other.num, self.den)
    }

    pub fn lt(self, other: Rat) -> (r: bool)
        ensures
            r == rat_lt(self@, other@),
    {
        wide_mul(self.num, other.den) < wide_mul(other.num, self.den)
    }

    /// Equality of values, regardless of representation.
    pub fn eq_val(self, other: Rat) -> (r: bool)
        ensures
            r == rat_eq(self@, other@),
    {
        wide_mul(self.num, other.den) == wide_mul(other.num, self.den)
    }
}

} // verus!
