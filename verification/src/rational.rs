//! Exact rational scalars.
//!
//! Every physical quantity in this crate wraps a `Rat`: a fraction of two
//! `i64` values with a positive denominator. Arithmetic is exact; each
//! operation is computed in `i128` and is specified against the mathematical
//! model `Qv`, a fraction of unbounded integers. An operation whose exact
//! result has a numerator equal to zero returns the canonical zero `0/1`,
//! which keeps denominators from growing through chains of operations on
//! zero values. Results are otherwise left unreduced, so each operation
//! carries a precondition (`q_fits`) saying that its exact result still fits
//! in an `i64` fraction.

use vstd::prelude::*;

verus! {

/// Mathematical value of a rational: numerator and denominator as
/// unbounded integers. A value is meaningful only when `q_ok` holds.
pub ghost struct Qv {
    pub n: int,
    pub d: int,
}

/// Well-formedness of a mathematical rational: positive denominator.
pub open spec fn q_ok(q: Qv) -> bool {
    q.d >= 1
}

/// The canonical zero, `0/1`.
pub open spec fn q_zero() -> Qv {
    Qv { n: 0, d: 1 }
}

/// The unit, `1/1`.
pub open spec fn q_one() -> Qv {
    Qv { n: 1, d: 1 }
}

/// Zero normal form: a fraction with numerator zero is replaced by `0/1`.
pub open spec fn q_norm(q: Qv) -> Qv {
    if q.n == 0 {
        q_zero()
    } else {
        q
    }
}

/// Exact sum.
pub open spec fn q_add(a: Qv, b: Qv) -> Qv {
    q_norm(Qv { n: a.n * b.d + b.n * a.d, d: a.d * b.d })
}

/// Exact difference.
pub open spec fn q_sub(a: Qv, b: Qv) -> Qv {
    q_norm(Qv { n: a.n * b.d - b.n * a.d, d: a.d * b.d })
}

/// Exact negation.
pub open spec fn q_neg(a: Qv) -> Qv {
    q_norm(Qv { n: -a.n, d: a.d })
}

/// Exact product.
pub open spec fn q_mul(a: Qv, b: Qv) -> Qv {
    q_norm(Qv { n: a.n * b.n, d: a.d * b.d })
}

/// Exact quotient. Division by a zero rational yields a junk value that
/// fails `q_ok`; executable division excludes that case by precondition.
pub open spec fn q_div(a: Qv, b: Qv) -> Qv {
    if b.n > 0 {
        q_norm(Qv { n: a.n * b.d, d: a.d * b.n })
    } else if b.n < 0 {
        q_norm(Qv { n: -(a.n * b.d), d: a.d * (-b.n) })
    } else {
        Qv { n: 0, d: 0 }
    }
}

/// Equality of rational values (cross multiplication).
pub open spec fn q_eq(a: Qv, b: Qv) -> bool {
    a.n * b.d == b.n * a.d
}

/// The exact value fits back into an `i64` fraction: this is the machine
/// limit that each executable operation imposes on its result.
pub open spec fn q_fits(q: Qv) -> bool {
    &&& -0x7fff_ffff_ffff_ffff <= q.n <= 0x7fff_ffff_ffff_ffff
    &&& 1 <= q.d <= 0x7fff_ffff_ffff_ffff
}

/// An exact rational scalar: `num / den`.
#[derive(Clone, Copy, PartialEq, Eq, Structural, Debug)]
pub struct Rat {
    pub num: i64,
    pub den: i64,
}

impl View for Rat {
    type V = Qv;

    open spec fn view(&self) -> Qv {
        Qv { n: self.num as int, d: self.den as int }
    }
}

/// Well-formedness of a stored rational: positive denominator, and a
/// numerator whose negation still fits (so `i64::MIN` is excluded).
pub open spec fn rat_ok(r: Rat) -> bool {
    &&& 1 <= r.den
    &&& -0x7fff_ffff_ffff_ffff <= r.num
}

proof fn lemma_mul_bounds(a: int, b: int)
    by (nonlinear_arith)
    requires
        -0x7fff_ffff_ffff_ffff <= a <= 0x7fff_ffff_ffff_ffff,
        -0x7fff_ffff_ffff_ffff <= b <= 0x7fff_ffff_ffff_ffff,
    ensures
        -0x3fff_ffff_ffff_ffff_0000_0000_0000_0001 <= a * b
            <= 0x3fff_ffff_ffff_ffff_0000_0000_0000_0001,
{
}

proof fn lemma_mul_sign(a: int, b: int)
    by (nonlinear_arith)
    requires
        a >= 1,
    ensures
        b > 0 ==> a * b > 0,
        b < 0 ==> a * b < 0,
        b == 0 ==> a * b == 0,
        a * (-b) == -(a * b),
{
}

impl Rat {
    /// Builds `num / den`.
    pub fn new(num: i64, den: i64) -> (r: Rat)
        requires
            1 <= den,
            -0x7fff_ffff_ffff_ffff <= num,
        ensures
            rat_ok(r),
            r@ == (Qv { n: num as int, d: den as int }),
    {
        Rat { num, den }
    }

    /// Builds the whole number `n`.
    pub fn from_int(n: i64) -> (r: Rat)
        requires
            -0x7fff_ffff_ffff_ffff <= n,
        ensures
            rat_ok(r),
            r@ == (Qv { n: n as int, d: 1 }),
    {
        Rat { num: n, den: 1 }
    }

    /// The canonical zero.
    pub fn zero() -> (r: Rat)
        ensures
            rat_ok(r),
            r@ == q_zero(),
    {
        Rat { num: 0, den: 1 }
    }

    /// The unit.
    pub fn one() -> (r: Rat)
        ensures
            rat_ok(r),
            r@ == q_one(),
    {
        Rat { num: 1, den: 1 }
    }

    /// Exact sum.
    pub fn add(self, other: Rat) -> (r: Rat)
        requires
            rat_ok(self),
            rat_ok(other),
            q_fits(q_add(self@, other@)),
        ensures
            rat_ok(r),
            r@ == q_add(self@, other@),
    {
        proof {
            lemma_mul_bounds(self.num as int, other.den as int);
            lemma_mul_bounds(other.num as int, self.den as int);
            lemma_mul_bounds(self.den as int, other.den as int);
        }
        let n: i128 = (self.num as i128) * (other.den as i128)
            + (other.num as i128) * (self.den as i128);
        if n == 0 {
            Rat { num: 0, den: 1 }
        } else {
            let d: i128 = (self.den as i128) * (other.den as i128);
            Rat { num: n as i64, den: d as i64 }
        }
    }

    /// Exact difference.
    pub fn sub(self, other: Rat) -> (r: Rat)
        requires
            rat_ok(self),
            rat_ok(other),
            q_fits(q_sub(self@, other@)),
        ensures
            rat_ok(r),
            r@ == q_sub(self@, other@),
    {
        proof {
            lemma_mul_bounds(self.num as int, other.den as int);
            lemma_mul_bounds(other.num as int, self.den as int);
            lemma_mul_bounds(self.den as int, other.den as int);
        }
        let n: i128 = (self.num as i128) * (other.den as i128)
            - (other.num as i128) * (self.den as i128);
        if n == 0 {
            Rat { num: 0, den: 1 }
        } else {
            let d: i128 = (self.den as i128) * (other.den as i128);
            Rat { num: n as i64, den: d as i64 }
        }
    }

    /// Exact negation.
    pub fn neg(self) -> (r: Rat)
        requires
            rat_ok(self),
        ensures
            rat_ok(r),
            r@ == q_neg(self@),
    {
        if self.num == 0 {
            Rat { num: 0, den: 1 }
        } else {
            Rat { num: -self.num, den: self.den }
        }
    }

    /// Exact product.
    pub fn mul(self, other: Rat) -> (r: Rat)
        requires
            rat_ok(self),
            rat_ok(other),
            q_fits(q_mul(self@, other@)),
        ensures
            rat_ok(r),
            r@ == q_mul(self@, other@),
    {
        proof {
            lemma_mul_bounds(self.num as int, other.num as int);
            lemma_mul_bounds(self.den as int, other.den as int);
        }
        let n: i128 = (self.num as i128) * (other.num as i128);
        if n == 0 {
            Rat { num: 0, den: 1 }
        } else {
            let d: i128 = (self.den as i128) * (other.den as i128);
            Rat { num: n as i64, den: d as i64 }
        }
    }

    /// Exact quotient; the divisor must be nonzero.
    pub fn div(self, other: Rat) -> (r: Rat)
        requires
            rat_ok(self),
            rat_ok(other),
            other@.n != 0,
            q_fits(q_div(self@, other@)),
        ensures
            rat_ok(r),
            r@ == q_div(self@, other@),
    {
        proof {
            lemma_mul_bounds(self.num as int, other.den as int);
            lemma_mul_bounds(self.den as int, other.num as int);
            lemma_mul_sign(self.den as int, other.num as int);
        }
        let n0: i128 = (self.num as i128) * (other.den as i128);
        let d0: i128 = (self.den as i128) * (other.num as i128);
        if n0 == 0 {
            Rat { num: 0, den: 1 }
        } else if d0 < 0 {
            Rat { num: (-n0) as i64, den: (-d0) as i64 }
        } else {
            Rat { num: n0 as i64, den: d0 as i64 }
        }
    }

    /// Value equality (`a/b == c/d` as rationals, not as representations).
    pub fn eq_rat(self, other: Rat) -> (r: bool)
        requires
            rat_ok(self),
            rat_ok(other),
        ensures
            r == q_eq(self@, other@),
    {
        proof {
            lemma_mul_bounds(self.num as int, other.den as int);
            lemma_mul_bounds(other.num as int, self.den as int);
        }
        (self.num as i128) * (other.den as i128) == (other.num as i128) * (self.den as i128)
    }

    /// Whether the value is strictly positive.
    pub fn is_pos(self) -> (r: bool)
        requires
            rat_ok(self),
        ensures
            r == (self@.n > 0),
    {
        self.num > 0
    }
}

proof fn lemma_pos_mul(a: int, b: int)
    by (nonlinear_arith)
    requires
        a >= 1,
        b >= 1,
    ensures
        a * b >= 1,
{
}

proof fn lemma_eq_trans_raw(an: int, ad: int, bn: int, bd: int, cn: int, cd: int)
    by (nonlinear_arith)
    requires
        ad >= 1,
        bd >= 1,
        cd >= 1,
        an * bd == bn * ad,
        bn * cd == cn * bd,
    ensures
        an * cd == cn * ad,
{
}

/// Well-formedness is preserved by the rational operations.
pub proof fn lemma_q_ok_ops(a: Qv, b: Qv)
    requires
        q_ok(a),
        q_ok(b),
    ensures
        q_ok(q_add(a, b)),
        q_ok(q_sub(a, b)),
        q_ok(q_mul(a, b)),
        q_ok(q_neg(a)),
{
    lemma_pos_mul(a.d, b.d);
}

/// Rational value equality is transitive.
pub proof fn lemma_q_eq_trans(a: Qv, b: Qv, c: Qv)
    requires
        q_ok(a),
        q_ok(b),
        q_ok(c),
        q_eq(a, b),
        q_eq(b, c),
    ensures
        q_eq(a, c),
{
    lemma_eq_trans_raw(a.n, a.d, b.n, b.d, c.n, c.d);
}

/// Zero normalization does not change the value.
pub proof fn lemma_q_norm_eq(q: Qv)
    requires
        q_ok(q),
    ensures
        q_ok(q_norm(q)),
        q_eq(q_norm(q), q),
        q_eq(q, q_norm(q)),
{
}

proof fn lemma_cross_expand(p: int, q: int, ad: int, bd: int, a2d: int)
    ensures
        (p * bd + q * ad) * (a2d * bd) == (p * a2d) * (bd * bd) + (q * bd) * (ad * a2d),
{
    vstd::arithmetic::mul::lemma_mul_is_distributive_add_other_way(a2d * bd, p * bd, q * ad);
    assert((p * bd) * (a2d * bd) == (p * a2d) * (bd * bd)) by (nonlinear_arith);
    assert((q * ad) * (a2d * bd) == (q * bd) * (ad * a2d)) by (nonlinear_arith);
}

proof fn lemma_add_congruent_left_raw(
    an: int, ad: int, bn: int, bd: int, a2n: int, a2d: int,
)
    requires
        an * a2d == a2n * ad,
    ensures
        (an * bd + bn * ad) * (a2d * bd) == (a2n * bd + bn * a2d) * (ad * bd),
{
    lemma_cross_expand(an, bn, ad, bd, a2d);
    lemma_cross_expand(a2n, bn, a2d, bd, ad);
    assert(ad * a2d == a2d * ad) by (nonlinear_arith);
}

proof fn lemma_mul_congruent_left_raw(
    an: int, ad: int, bn: int, bd: int, a2n: int, a2d: int,
)
    by (nonlinear_arith)
    requires
        an * a2d == a2n * ad,
    ensures
        (an * bn) * (a2d * bd) == (a2n * bn) * (ad * bd),
{
}

/// Addition of rationals is commutative.
pub proof fn lemma_q_add_comm(a: Qv, b: Qv)
    requires
        q_ok(a),
        q_ok(b),
    ensures
        q_eq(q_add(a, b), q_add(b, a)),
{
    let rab = Qv { n: a.n * b.d + b.n * a.d, d: a.d * b.d };
    let rba = Qv { n: b.n * a.d + a.n * b.d, d: b.d * a.d };
    lemma_pos_mul(a.d, b.d);
    lemma_pos_mul(b.d, a.d);
    lemma_q_norm_eq(rab);
    lemma_q_norm_eq(rba);
    assert((a.n * b.d + b.n * a.d) * (b.d * a.d) == (b.n * a.d + a.n * b.d) * (a.d * b.d))
        by (nonlinear_arith);
    lemma_q_eq_trans(q_add(a, b), rab, rba);
    lemma_q_eq_trans(q_add(a, b), rba, q_add(b, a));
}

/// Replacing the left summand by an equal value gives an equal sum.
pub proof fn lemma_q_add_congruence_left(a: Qv, a2: Qv, b: Qv)
    requires
        q_ok(a),
        q_ok(a2),
        q_ok(b),
        q_eq(a, a2),
    ensures
        q_eq(q_add(a, b), q_add(a2, b)),
{
    let rab = Qv { n: a.n * b.d + b.n * a.d, d: a.d * b.d };
    let rab2 = Qv { n: a2.n * b.d + b.n * a2.d, d: a2.d * b.d };
    lemma_pos_mul(a.d, b.d);
    lemma_pos_mul(a2.d, b.d);
    lemma_q_norm_eq(rab);
    lemma_q_norm_eq(rab2);
    lemma_add_congruent_left_raw(a.n, a.d, b.n, b.d, a2.n, a2.d);
    lemma_q_eq_trans(q_add(a, b), rab, rab2);
    lemma_q_eq_trans(q_add(a, b), rab2, q_add(a2, b));
}

/// Replacing either summand by an equal value gives an equal sum.
pub proof fn lemma_q_add_congruence(a: Qv, a2: Qv, b: Qv, b2: Qv)
    requires
        q_ok(a),
        q_ok(a2),
        q_ok(b),
        q_ok(b2),
        q_eq(a, a2),
        q_eq(b, b2),
    ensures
        q_eq(q_add(a, b), q_add(a2, b2)),
{
    lemma_pos_mul(a.d, b.d);
    lemma_pos_mul(a2.d, b.d);
    lemma_pos_mul(b.d, a2.d);
    lemma_pos_mul(b2.d, a2.d);
    lemma_pos_mul(a2.d, b2.d);
    lemma_q_add_congruence_left(a, a2, b);
    lemma_q_add_comm(a2, b);
    lemma_q_add_congruence_left(b, b2, a2);
    lemma_q_add_comm(b2, a2);
    lemma_q_eq_trans(q_add(a, b), q_add(a2, b), q_add(b, a2));
    lemma_q_eq_trans(q_add(a, b), q_add(b, a2), q_add(b2, a2));
    lemma_q_eq_trans(q_add(a, b), q_add(b2, a2), q_add(a2, b2));
}

/// Multiplication of rationals is commutative.
pub proof fn lemma_q_mul_comm(a: Qv, b: Qv)
    requires
        q_ok(a),
        q_ok(b),
    ensures
        q_eq(q_mul(a, b), q_mul(b, a)),
{
    let rab = Qv { n: a.n * b.n, d: a.d * b.d };
    let rba = Qv { n: b.n * a.n, d: b.d * a.d };
    lemma_pos_mul(a.d, b.d);
    lemma_pos_mul(b.d, a.d);
    lemma_q_norm_eq(rab);
    lemma_q_norm_eq(rba);
    assert((a.n * b.n) * (b.d * a.d) == (b.n * a.n) * (a.d * b.d)) by (nonlinear_arith);
    lemma_q_eq_trans(q_mul(a, b), rab, rba);
    lemma_q_eq_trans(q_mul(a, b), rba, q_mul(b, a));
}

/// Replacing the left factor by an equal value gives an equal product.
pub proof fn lemma_q_mul_congruence_left(a: Qv, a2: Qv, b: Qv)
    requires
        q_ok(a),
        q_ok(a2),
        q_ok(b),
        q_eq(a, a2),
    ensures
        q_eq(q_mul(a, b), q_mul(a2, b)),
{
    let rab = Qv { n: a.n * b.n, d: a.d * b.d };
    let rab2 = Qv { n: a2.n * b.n, d: a2.d * b.d };
    lemma_pos_mul(a.d, b.d);
    lemma_pos_mul(a2.d, b.d);
    lemma_q_norm_eq(rab);
    lemma_q_norm_eq(rab2);
    lemma_mul_congruent_left_raw(a.n, a.d, b.n, b.d, a2.n, a2.d);
    lemma_q_eq_trans(q_mul(a, b), rab, rab2);
    lemma_q_eq_trans(q_mul(a, b), rab2, q_mul(a2, b));
}

/// Replacing either factor by an equal value gives an equal product.
pub proof fn lemma_q_mul_congruence(a: Qv, a2: Qv, b: Qv, b2: Qv)
    requires
        q_ok(a),
        q_ok(a2),
        q_ok(b),
        q_ok(b2),
        q_eq(a, a2),
        q_eq(b, b2),
    ensures
        q_eq(q_mul(a, b), q_mul(a2, b2)),
{
    lemma_pos_mul(a.d, b.d);
    lemma_pos_mul(a2.d, b.d);
    lemma_pos_mul(b.d, a2.d);
    lemma_pos_mul(b2.d, a2.d);
    lemma_pos_mul(a2.d, b2.d);
    lemma_q_mul_congruence_left(a, a2, b);
    lemma_q_mul_comm(a2, b);
    lemma_q_mul_congruence_left(b, b2, a2);
    lemma_q_mul_comm(b2, a2);
    lemma_q_eq_trans(q_mul(a, b), q_mul(a2, b), q_mul(b, a2));
    lemma_q_eq_trans(q_mul(a, b), q_mul(b, a2), q_mul(b2, a2));
    lemma_q_eq_trans(q_mul(a, b), q_mul(b2, a2), q_mul(a2, b2));
}

proof fn lemma_add_assoc_raw(an: int, ad: int, bn: int, bd: int, cn: int, cd: int)
    ensures
        (an * bd + bn * ad) * cd + cn * (ad * bd) == an * (bd * cd) + (bn * cd + cn * bd) * ad,
        (ad * bd) * cd == ad * (bd * cd),
{
    vstd::arithmetic::mul::lemma_mul_is_distributive_add_other_way(cd, an * bd, bn * ad);
    vstd::arithmetic::mul::lemma_mul_is_distributive_add_other_way(ad, bn * cd, cn * bd);
    assert((an * bd) * cd == an * (bd * cd)) by (nonlinear_arith);
    assert((bn * ad) * cd == (bn * cd) * ad) by (nonlinear_arith);
    assert(cn * (ad * bd) == (cn * bd) * ad) by (nonlinear_arith);
    assert((ad * bd) * cd == ad * (bd * cd)) by (nonlinear_arith);
}

/// Addition of rationals is associative.
pub proof fn lemma_q_add_assoc(a: Qv, b: Qv, c: Qv)
    requires
        q_ok(a),
        q_ok(b),
        q_ok(c),
    ensures
        q_eq(q_add(q_add(a, b), c), q_add(a, q_add(b, c))),
{
    let rab = Qv { n: a.n * b.d + b.n * a.d, d: a.d * b.d };
    let rbc = Qv { n: b.n * c.d + c.n * b.d, d: b.d * c.d };
    lemma_pos_mul(a.d, b.d);
    lemma_pos_mul(b.d, c.d);
    lemma_q_norm_eq(rab);
    lemma_q_norm_eq(rbc);
    // swap each normalized inner sum for its raw pair
    lemma_q_add_congruence(q_add(a, b), rab, c, c);
    lemma_q_add_congruence(a, a, q_add(b, c), rbc);
    lemma_add_assoc_raw(a.n, a.d, b.n, b.d, c.n, c.d);
    let lraw = Qv { n: rab.n * c.d + c.n * rab.d, d: rab.d * c.d };
    let rraw = Qv { n: a.n * rbc.d + rbc.n * a.d, d: a.d * rbc.d };
    assert(lraw == rraw);
    lemma_pos_mul(rab.d, c.d);
    lemma_q_norm_eq(lraw);
    lemma_q_eq_trans(q_add(q_add(a, b), c), q_add(rab, c), q_add(a, rbc));
    lemma_q_eq_trans(q_add(q_add(a, b), c), q_add(a, rbc), q_add(a, q_add(b, c)));
}

/// Multiplying by one gives an equal value.
pub proof fn lemma_q_mul_one(a: Qv)
    requires
        q_ok(a),
    ensures
        q_eq(q_mul(a, q_one()), a),
{
    let raw = Qv { n: a.n * 1, d: a.d * 1 };
    lemma_q_norm_eq(raw);
}

proof fn lemma_swap_factors(u: int, x: int, y: int, z: int)
    by (nonlinear_arith)
    ensures
        u * ((x * y) * (x * z)) == (x * u) * (x * (y * z)),
{
}

proof fn lemma_gather_terms(an: int, ad: int, sn: int, sd: int, tn: int, td: int)
    ensures
        (an * sn) * (ad * td) + (an * tn) * (ad * sd) == ad * (an * (sn * td + tn * sd)),
{
    vstd::arithmetic::mul::lemma_mul_is_distributive_add(an, sn * td, tn * sd);
    vstd::arithmetic::mul::lemma_mul_is_distributive_add(ad, an * (sn * td), an * (tn * sd));
    assert((an * sn) * (ad * td) == ad * (an * (sn * td))) by (nonlinear_arith);
    assert((an * tn) * (ad * sd) == ad * (an * (tn * sd))) by (nonlinear_arith);
}

proof fn lemma_mul_distrib_raw(an: int, ad: int, sn: int, sd: int, tn: int, td: int)
    ensures
        (an * (sn * td + tn * sd)) * ((ad * sd) * (ad * td))
            == ((an * sn) * (ad * td) + (an * tn) * (ad * sd)) * (ad * (sd * td)),
{
    let u = an * (sn * td + tn * sd);
    lemma_swap_factors(u, ad, sd, td);
    lemma_gather_terms(an, ad, sn, sd, tn, td);
}

/// Scaling distributes over the sum of scalars.
pub proof fn lemma_q_mul_distrib(a: Qv, s: Qv, t: Qv)
    requires
        q_ok(a),
        q_ok(s),
        q_ok(t),
    ensures
        q_eq(q_mul(a, q_add(s, t)), q_add(q_mul(a, s), q_mul(a, t))),
{
    let rst = Qv { n: s.n * t.d + t.n * s.d, d: s.d * t.d };
    let ras = Qv { n: a.n * s.n, d: a.d * s.d };
    let rat = Qv { n: a.n * t.n, d: a.d * t.d };
    lemma_pos_mul(s.d, t.d);
    lemma_pos_mul(a.d, s.d);
    lemma_pos_mul(a.d, t.d);
    lemma_q_norm_eq(rst);
    lemma_q_norm_eq(ras);
    lemma_q_norm_eq(rat);
    lemma_q_mul_congruence(a, a, q_add(s, t), rst);
    lemma_q_add_congruence(q_mul(a, s), ras, q_mul(a, t), rat);
    let lraw = Qv { n: a.n * rst.n, d: a.d * rst.d };
    let rraw = Qv { n: ras.n * rat.d + rat.n * ras.d, d: ras.d * rat.d };
    lemma_pos_mul(a.d, rst.d);
    lemma_pos_mul(ras.d, rat.d);
    lemma_q_norm_eq(lraw);
    lemma_q_norm_eq(rraw);
    lemma_mul_distrib_raw(a.n, a.d, s.n, s.d, t.n, t.d);
    assert(q_eq(lraw, rraw));
    lemma_q_eq_trans(q_mul(a, q_add(s, t)), lraw, rraw);
    lemma_q_eq_trans(q_mul(a, q_add(s, t)), rraw, q_add(ras, rat));
    lemma_q_eq_trans(q_mul(a, q_add(s, t)), q_add(ras, rat), q_add(q_mul(a, s), q_mul(a, t)));
}

/// Adding an exact zero gives an equal value.
pub proof fn lemma_q_add_zero(a: Qv, z: Qv)
    requires
        q_ok(a),
        q_ok(z),
        z.n == 0,
    ensures
        q_eq(q_add(a, z), a),
{
    let raw = Qv { n: a.n * z.d + 0 * a.d, d: a.d * z.d };
    lemma_pos_mul(a.d, z.d);
    lemma_q_norm_eq(raw);
    assert(raw.n * a.d == a.n * raw.d) by (nonlinear_arith)
        requires
            raw.n == a.n * z.d,
            raw.d == a.d * z.d;
    lemma_q_eq_trans(q_add(a, z), raw, a);
}

/// Scaling by an exact zero gives the canonical zero.
pub proof fn lemma_q_mul_zero(a: Qv, z: Qv)
    requires
        z.n == 0,
    ensures
        q_mul(a, z) == q_zero(),
{
    assert(a.n * 0 == 0) by (nonlinear_arith);
}

/// A value plus its negation is the canonical zero.
pub proof fn lemma_q_add_neg(a: Qv)
    requires
        q_ok(a),
    ensures
        q_add(a, q_neg(a)) == q_zero(),
{
    if a.n == 0 {
        assert(a.n * 1 + 0 * a.d == 0);
    } else {
        assert(a.n * a.d + (-a.n) * a.d == 0) by (nonlinear_arith);
    }
}

/// The `i64` fraction holding a given mathematical value; meaningful
/// only when the value fits (`q_fits`).
pub open spec fn rat_of(q: Qv) -> Rat {
    Rat { num: q.n as i64, den: q.d as i64 }
}

/// The scalar one half, as a value usable in specifications.
pub open spec fn rat_half() -> Rat {
    Rat { num: 1, den: 2 }
}

/// The scalar one third.
pub open spec fn rat_third() -> Rat {
    Rat { num: 1, den: 3 }
}

/// The scalar one sixth.
pub open spec fn rat_sixth() -> Rat {
    Rat { num: 1, den: 6 }
}

impl Rat {
    /// The scalar one half.
    pub fn half() -> (r: Rat)
        ensures
            r == rat_half(),
            rat_ok(r),
    {
        Rat { num: 1, den: 2 }
    }

    /// The scalar one third.
    pub fn third() -> (r: Rat)
        ensures
            r == rat_third(),
            rat_ok(r),
    {
        Rat { num: 1, den: 3 }
    }

    /// The scalar one sixth.
    pub fn sixth() -> (r: Rat)
        ensures
            r == rat_sixth(),
            rat_ok(r),
    {
        Rat { num: 1, den: 6 }
    }
}

} // verus!
