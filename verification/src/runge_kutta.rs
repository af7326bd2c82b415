//! Generic fixed-step explicit Runge-Kutta steppers.
//!
//! The steppers work over any type with three capabilities: elementwise
//! sum, scaling by a rational, and a time-derivative function. Each
//! capability carries a precondition and postcondition predicate supplied
//! by the implementing type; the steppers' contracts chain those
//! predicates, so what a stepper returns is pinned exactly as far as the
//! implementor's own postconditions pin each intermediate value.

use vstd::prelude::*;
use crate::rational::Rat;
use crate::rational::rat_of;
use crate::rational::rat_ok;
use crate::rational::rat_half;
use crate::rational::rat_third;
use crate::rational::rat_sixth;
use crate::rational::q_add;
use crate::rational::q_mul;
use crate::rational::q_fits;

verus! {

/// A state that can be advanced by the steppers: a point of a vector
/// space with a time derivative. `add` and `mul` are the vector-space
/// operations; `f` maps the state and a time to its rate of change,
/// reusing `Self` as the container for the derivative's components.
pub trait State: Sized {
    /// When `add` may be called.
    spec fn add_req(&self, other: &Self) -> bool;

    /// What `add` returns.
    spec fn add_ens(&self, other: &Self, r: Self) -> bool;

    /// When `mul` may be called.
    spec fn mul_req(&self, s: Rat) -> bool;

    /// What `mul` returns.
    spec fn mul_ens(&self, s: Rat, r: Self) -> bool;

    /// When `f` may be called.
    spec fn f_req(&self, t: Rat) -> bool;

    /// What `f` returns.
    spec fn f_ens(&self, t: Rat, r: Self) -> bool;

    /// Elementwise sum.
    fn add(&self, other: &Self) -> (r: Self)
        requires
            self.add_req(other),
        ensures
            self.add_ens(other, r),
    ;

    /// Scaling by a bare rational.
    fn mul(&self, s: &Rat) -> (r: Self)
        requires
            self.mul_req(*s),
        ensures
            self.mul_ens(*s, r),
    ;

    /// The time derivative of the state at time `t`.
    fn f(&self, t: &Rat) -> (r: Self)
        requires
            self.f_req(*t),
        ensures
            self.f_ens(*t, r),
    ;
}

/// The time at the middle of a step: `t + dt/2`.
pub open spec fn mid_time(t: Rat, dt: Rat) -> Rat {
    rat_of(q_add(t@, q_mul(rat_half()@, dt@)))
}

/// The time at the end of a step: `t + dt`.
pub open spec fn end_time(t: Rat, dt: Rat) -> Rat {
    rat_of(q_add(t@, dt@))
}

/// `k` is a derivative of `y` at time `ta`, scaled by `dt`.
pub open spec fn deriv_scaled<Y: State>(y: Y, ta: Rat, dt: Rat, k: Y) -> bool {
    exists |d: Y| #[trigger] y.f_ens(ta, d) && d.mul_ens(dt, k)
}

/// The derivative of `y` at `ta` may be taken and scaled by `dt`.
pub open spec fn deriv_scaled_pre<Y: State>(y: Y, ta: Rat, dt: Rat) -> bool {
    &&& y.f_req(ta)
    &&& forall |d: Y| #[trigger] y.f_ens(ta, d) ==> d.mul_req(dt)
}

/// `k1 = f(y, t) * dt`.
pub open spec fn rk_k1<Y: State>(t: Rat, dt: Rat, y: Y, k1: Y) -> bool {
    deriv_scaled(y, t, dt, k1)
}

/// `x = k1 * 1/2`.
pub open spec fn rk_k1h<Y: State>(t: Rat, dt: Rat, y: Y, x: Y) -> bool {
    exists |k1: Y| #[trigger] rk_k1(t, dt, y, k1) && k1.mul_ens(rat_half(), x)
}

/// `m1 = y + k1 * 1/2`: the first midpoint state.
pub open spec fn rk_m1<Y: State>(t: Rat, dt: Rat, y: Y, m1: Y) -> bool {
    exists |x: Y| #[trigger] rk_k1h(t, dt, y, x) && y.add_ens(&x, m1)
}

/// `k2 = f(y + k1/2, t + dt/2) * dt`.
pub open spec fn rk_k2<Y: State>(t: Rat, dt: Rat, y: Y, k2: Y) -> bool {
    exists |m1: Y| #[trigger] rk_m1(t, dt, y, m1) && deriv_scaled(m1, mid_time(t, dt), dt, k2)
}

/// `x = k2 * 1/2`.
pub open spec fn rk_k2h<Y: State>(t: Rat, dt: Rat, y: Y, x: Y) -> bool {
    exists |k2: Y| #[trigger] rk_k2(t, dt, y, k2) && k2.mul_ens(rat_half(), x)
}

/// `m2 = y + k2 * 1/2`: the second midpoint state.
pub open spec fn rk_m2<Y: State>(t: Rat, dt: Rat, y: Y, m2: Y) -> bool {
    exists |x: Y| #[trigger] rk_k2h(t, dt, y, x) && y.add_ens(&x, m2)
}

/// `k3 = f(y + k2/2, t + dt/2) * dt`.
pub open spec fn rk_k3<Y: State>(t: Rat, dt: Rat, y: Y, k3: Y) -> bool {
    exists |m2: Y| #[trigger] rk_m2(t, dt, y, m2) && deriv_scaled(m2, mid_time(t, dt), dt, k3)
}

/// `m3 = y + k3`: the endpoint state.
pub open spec fn rk_m3<Y: State>(t: Rat, dt: Rat, y: Y, m3: Y) -> bool {
    exists |k3: Y| #[trigger] rk_k3(t, dt, y, k3) && y.add_ens(&k3, m3)
}

/// `k4 = f(y + k3, t + dt) * dt`.
pub open spec fn rk_k4<Y: State>(t: Rat, dt: Rat, y: Y, k4: Y) -> bool {
    exists |m3: Y| #[trigger] rk_m3(t, dt, y, m3) && deriv_scaled(m3, end_time(t, dt), dt, k4)
}

/// `x = k1 * 1/6`.
pub open spec fn rk_k1s<Y: State>(t: Rat, dt: Rat, y: Y, x: Y) -> bool {
    exists |k1: Y| #[trigger] rk_k1(t, dt, y, k1) && k1.mul_ens(rat_sixth(), x)
}

/// `x = k2 * 1/3`.
pub open spec fn rk_k2t<Y: State>(t: Rat, dt: Rat, y: Y, x: Y) -> bool {
    exists |k2: Y| #[trigger] rk_k2(t, dt, y, k2) && k2.mul_ens(rat_third(), x)
}

/// `x = k3 * 1/3`.
pub open spec fn rk_k3t<Y: State>(t: Rat, dt: Rat, y: Y, x: Y) -> bool {
    exists |k3: Y| #[trigger] rk_k3(t, dt, y, k3) && k3.mul_ens(rat_third(), x)
}

/// `x = k4 * 1/6`.
pub open spec fn rk_k4s<Y: State>(t: Rat, dt: Rat, y: Y, x: Y) -> bool {
    exists |k4: Y| #[trigger] rk_k4(t, dt, y, k4) && k4.mul_ens(rat_sixth(), x)
}

/// `a1 = y + k1/6`.
pub open spec fn rk_a1<Y: State>(t: Rat, dt: Rat, y: Y, a1: Y) -> bool {
    exists |x: Y| #[trigger] rk_k1s(t, dt, y, x) && y.add_ens(&x, a1)
}

/// `a2 = y + k1/6 + k2/3`.
pub open spec fn rk_a2<Y: State>(t: Rat, dt: Rat, y: Y, a2: Y) -> bool {
    exists |a1: Y, x: Y| #[trigger] rk_a1(t, dt, y, a1) && #[trigger] rk_k2t(t, dt, y, x)
        && a1.add_ens(&x, a2)
}

/// `a3 = y + k1/6 + k2/3 + k3/3`.
pub open spec fn rk_a3<Y: State>(t: Rat, dt: Rat, y: Y, a3: Y) -> bool {
    exists |a2: Y, x: Y| #[trigger] rk_a2(t, dt, y, a2) && #[trigger] rk_k3t(t, dt, y, x)
        && a2.add_ens(&x, a3)
}

/// The midpoint-method result: `r = y + k2`.
pub open spec fn rk2_rel<Y: State>(t: Rat, dt: Rat, y: Y, r: Y) -> bool {
    exists |k2: Y| #[trigger] rk_k2(t, dt, y, k2) && y.add_ens(&k2, r)
}

/// The classical fourth-order result:
/// `r = y + k1/6 + k2/3 + k3/3 + k4/6`.
pub open spec fn rk4_rel<Y: State>(t: Rat, dt: Rat, y: Y, r: Y) -> bool {
    exists |a3: Y, x: Y| #[trigger] rk_a3(t, dt, y, a3) && #[trigger] rk_k4s(t, dt, y, x)
        && a3.add_ens(&x, r)
}

/// The time values of a step can be formed.
pub open spec fn rk_times_pre(t: Rat, dt: Rat) -> bool {
    &&& rat_ok(t)
    &&& rat_ok(dt)
    &&& q_fits(q_mul(rat_half()@, dt@))
    &&& q_fits(q_add(t@, q_mul(rat_half()@, dt@)))
    &&& q_fits(q_add(t@, dt@))
}

/// Every operation of a midpoint-method step may be performed.
pub open spec fn rk2_pre<Y: State>(t: Rat, dt: Rat, y: Y) -> bool {
    &&& rk_times_pre(t, dt)
    &&& deriv_scaled_pre(y, t, dt)
    &&& forall |x: Y| #[trigger] rk_k1(t, dt, y, x) ==> x.mul_req(rat_half())
    &&& forall |x: Y| #[trigger] rk_k1h(t, dt, y, x) ==> y.add_req(&x)
    &&& forall |m: Y| #[trigger] rk_m1(t, dt, y, m) ==> deriv_scaled_pre(m, mid_time(t, dt), dt)
    &&& forall |x: Y| #[trigger] rk_k2(t, dt, y, x) ==> y.add_req(&x)
}

/// Every operation of a fourth-order step may be performed.
pub open spec fn rk4_pre<Y: State>(t: Rat, dt: Rat, y: Y) -> bool {
    &&& rk_times_pre(t, dt)
    &&& deriv_scaled_pre(y, t, dt)
    &&& forall |x: Y| #[trigger] rk_k1(t, dt, y, x)
        ==> x.mul_req(rat_half()) && x.mul_req(rat_sixth())
    &&& forall |x: Y| #[trigger] rk_k1h(t, dt, y, x) ==> y.add_req(&x)
    &&& forall |m: Y| #[trigger] rk_m1(t, dt, y, m) ==> deriv_scaled_pre(m, mid_time(t, dt), dt)
    &&& forall |x: Y| #[trigger] rk_k2(t, dt, y, x)
        ==> x.mul_req(rat_half()) && x.mul_req(rat_third())
    &&& forall |x: Y| #[trigger] rk_k2h(t, dt, y, x) ==> y.add_req(&x)
    &&& forall |m: Y| #[trigger] rk_m2(t, dt, y, m) ==> deriv_scaled_pre(m, mid_time(t, dt), dt)
    &&& forall |x: Y| #[trigger] rk_k3(t, dt, y, x)
        ==> y.add_req(&x) && x.mul_req(rat_third())
    &&& forall |m: Y| #[trigger] rk_m3(t, dt, y, m) ==> deriv_scaled_pre(m, end_time(t, dt), dt)
    &&& forall |x: Y| #[trigger] rk_k4(t, dt, y, x) ==> x.mul_req(rat_sixth())
    &&& forall |x: Y| #[trigger] rk_k1s(t, dt, y, x) ==> y.add_req(&x)
    &&& forall |a1: Y, x: Y| #[trigger] rk_a1(t, dt, y, a1) && #[trigger] rk_k2t(t, dt, y, x)
        ==> a1.add_req(&x)
    &&& forall |a2: Y, x: Y| #[trigger] rk_a2(t, dt, y, a2) && #[trigger] rk_k3t(t, dt, y, x)
        ==> a2.add_req(&x)
    &&& forall |a3: Y, x: Y| #[trigger] rk_a3(t, dt, y, a3) && #[trigger] rk_k4s(t, dt, y, x)
        ==> a3.add_req(&x)
}

/// One step of the explicit midpoint method (second order).
pub fn step_rk2<Y: State>(t: Rat, dt: Rat, y: &Y) -> (r: Y)
    requires
        rk2_pre(t, dt, *y),
    ensures
        rk2_rel(t, dt, *y, r),
{
    let half = Rat::half();
    let d1 = y.f(&t);
    let k1 = d1.mul(&dt);
    proof {
        assert(rk_k1(t, dt, *y, k1));
    }
    let k1h = k1.mul(&half);
    proof {
        assert(rk_k1h(t, dt, *y, k1h));
    }
    let m1 = y.add(&k1h);
    proof {
        assert(rk_m1(t, dt, *y, m1));
    }
    let tm = t.add(half.mul(dt));
    proof {
        assert(tm == mid_time(t, dt));
    }
    let d2 = m1.f(&tm);
    let k2 = d2.mul(&dt);
    proof {
        assert(rk_k2(t, dt, *y, k2));
    }
    y.add(&k2)
}

/// One step of the classical fourth-order Runge-Kutta method.
pub fn step_rk4<Y: State>(t: Rat, dt: Rat, y: &Y) -> (r: Y)
    requires
        rk4_pre(t, dt, *y),
    ensures
        rk4_rel(t, dt, *y, r),
{
    let half = Rat::half();
    let third = Rat::third();
    let sixth = Rat::sixth();
    let tm = t.add(half.mul(dt));
    proof {
        assert(tm == mid_time(t, dt));
    }
    let te = t.add(dt);
    proof {
        assert(te == end_time(t, dt));
    }
    let d1 = y.f(&t);
    let k1 = d1.mul(&dt);
    proof {
        assert(rk_k1(t, dt, *y, k1));
    }
    let k1h = k1.mul(&half);
    proof {
        assert(rk_k1h(t, dt, *y, k1h));
    }
    let m1 = y.add(&k1h);
    proof {
        assert(rk_m1(t, dt, *y, m1));
    }
    let d2 = m1.f(&tm);
    let k2 = d2.mul(&dt);
    proof {
        assert(rk_k2(t, dt, *y, k2));
    }
    let k2h = k2.mul(&half);
    proof {
        assert(rk_k2h(t, dt, *y, k2h));
    }
    let m2 = y.add(&k2h);
    proof {
        assert(rk_m2(t, dt, *y, m2));
    }
    let d3 = m2.f(&tm);
    let k3 = d3.mul(&dt);
    proof {
        assert(rk_k3(t, dt, *y, k3));
    }
    let m3 = y.add(&k3);
    proof {
        assert(rk_m3(t, dt, *y, m3));
    }
    let d4 = m3.f(&te);
    let k4 = d4.mul(&dt);
    proof {
        assert(rk_k4(t, dt, *y, k4));
    }
    let k1s = k1.mul(&sixth);
    proof {
        assert(rk_k1s(t, dt, *y, k1s));
    }
    let k2t = k2.mul(&third);
    proof {
        assert(rk_k2t(t, dt, *y, k2t));
    }
    let k3t = k3.mul(&third);
    proof {
        assert(rk_k3t(t, dt, *y, k3t));
    }
    let k4s = k4.mul(&sixth);
    proof {
        assert(rk_k4s(t, dt, *y, k4s));
    }
    let a1 = y.add(&k1s);
    proof {
        assert(rk_a1(t, dt, *y, a1));
    }
    let a2 = a1.add(&k2t);
    proof {
        assert(rk_a2(t, dt, *y, a2));
    }
    let a3 = a2.add(&k3t);
    proof {
        assert(rk_a3(t, dt, *y, a3));
    }
    a3.add(&k4s)
}

} // verus!
