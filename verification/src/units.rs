//! Typed physical quantities.
//!
//! Each dimension wraps an exact rational scalar in a distinct type, so
//! values of different dimensions cannot be mixed: only the dimensionally
//! valid combinations below are defined (same-dimension sum and difference,
//! scaling by a bare rational, stiffness times length, damping times
//! velocity, and force divided by mass).

use vstd::prelude::*;
use crate::rational::Rat;
use crate::rational::q_add;
use crate::rational::q_sub;
use crate::rational::q_neg;
use crate::rational::q_mul;
use crate::rational::q_div;
use crate::rational::q_fits;
use crate::rational::rat_ok;

verus! {

/// Mass, in kilograms.
#[derive(Clone, Copy, PartialEq, Eq, Structural, Debug)]
pub struct Mass(pub Rat);

/// Length, in metres.
#[derive(Clone, Copy, PartialEq, Eq, Structural, Debug)]
pub struct Length(pub Rat);

/// Time, in seconds.
#[derive(Clone, Copy, PartialEq, Eq, Structural, Debug)]
pub struct Time(pub Rat);

/// Velocity, in metres per second.
#[derive(Clone, Copy, PartialEq, Eq, Structural, Debug)]
pub struct Velocity(pub Rat);

/// Acceleration, in metres per second squared.
#[derive(Clone, Copy, PartialEq, Eq, Structural, Debug)]
pub struct Accel(pub Rat);

/// Force, in newtons.
#[derive(Clone, Copy, PartialEq, Eq, Structural, Debug)]
pub struct Force(pub Rat);

/// Spring stiffness, in newtons per metre.
#[derive(Clone, Copy, PartialEq, Eq, Structural, Debug)]
pub struct Stiffness(pub Rat);

/// Damping, in newtons per metre per second.
#[derive(Clone, Copy, PartialEq, Eq, Structural, Debug)]
pub struct Damping(pub Rat);

impl Length {
    /// Sum of two lengths.
    pub fn add(self, other: Length) -> (r: Length)
        requires
            rat_ok(self.0),
            rat_ok(other.0),
            q_fits(q_add(self.0@, other.0@)),
        ensures
            rat_ok(r.0),
            r.0@ == q_add(self.0@, other.0@),
    {
        Length(self.0.add(other.0))
    }

    /// Difference of two lengths.
    pub fn sub(self, other: Length) -> (r: Length)
        requires
            rat_ok(self.0),
            rat_ok(other.0),
            q_fits(q_sub(self.0@, other.0@)),
        ensures
            rat_ok(r.0),
            r.0@ == q_sub(self.0@, other.0@),
    {
        Length(self.0.sub(other.0))
    }

    /// Length scaled by a bare rational.
    pub fn scale(self, s: Rat) -> (r: Length)
        requires
            rat_ok(self.0),
            rat_ok(s),
            q_fits(q_mul(self.0@, s@)),
        ensures
            rat_ok(r.0),
            r.0@ == q_mul(self.0@, s@),
    {
        Length(self.0.mul(s))
    }
}

impl Velocity {
    /// Sum of two velocities.
    pub fn add(self, other: Velocity) -> (r: Velocity)
        requires
            rat_ok(self.0),
            rat_ok(other.0),
            q_fits(q_add(self.0@, other.0@)),
        ensures
            rat_ok(r.0),
            r.0@ == q_add(self.0@, other.0@),
    {
        Velocity(self.0.add(other.0))
    }

    /// Difference of two velocities.
    pub fn sub(self, other: Velocity) -> (r: Velocity)
        requires
            rat_ok(self.0),
            rat_ok(other.0),
            q_fits(q_sub(self.0@, other.0@)),
        ensures
            rat_ok(r.0),
            r.0@ == q_sub(self.0@, other.0@),
    {
        Velocity(self.0.sub(other.0))
    }

    /// Velocity scaled by a bare rational.
    pub fn scale(self, s: Rat) -> (r: Velocity)
        requires
            rat_ok(self.0),
            rat_ok(s),
            q_fits(q_mul(self.0@, s@)),
        ensures
            rat_ok(r.0),
            r.0@ == q_mul(self.0@, s@),
    {
        Velocity(self.0.mul(s))
    }
}

impl Force {
    /// Sum of two forces.
    pub fn add(self, other: Force) -> (r: Force)
        requires
            rat_ok(self.0),
            rat_ok(other.0),
            q_fits(q_add(self.0@, other.0@)),
        ensures
            rat_ok(r.0),
            r.0@ == q_add(self.0@, other.0@),
    {
        Force(self.0.add(other.0))
    }

    /// Difference of two forces.
    pub fn sub(self, other: Force) -> (r: Force)
        requires
            rat_ok(self.0),
            rat_ok(other.0),
            q_fits(q_sub(self.0@, other.0@)),
        ensures
            rat_ok(r.0),
            r.0@ == q_sub(self.0@, other.0@),
    {
        Force(self.0.sub(other.0))
    }

    /// The equal and opposite force.
    pub fn neg(self) -> (r: Force)
        requires
            rat_ok(self.0),
        ensures
            rat_ok(r.0),
            r.0@ == q_neg(self.0@),
    {
        Force(self.0.neg())
    }

    /// Force divided by mass: acceleration. The mass must be nonzero.
    pub fn div(self, m: Mass) -> (r: Accel)
        requires
            rat_ok(self.0),
            rat_ok(m.0),
            m.0@.n != 0,
            q_fits(q_div(self.0@, m.0@)),
        ensures
            rat_ok(r.0),
            r.0@ == q_div(self.0@, m.0@),
    {
        Accel(self.0.div(m.0))
    }
}

impl Stiffness {
    /// Stiffness times length: force (Hooke's law term).
    pub fn mul(self, x: Length) -> (r: Force)
        requires
            rat_ok(self.0),
            rat_ok(x.0),
            q_fits(q_mul(self.0@, x.0@)),
        ensures
            rat_ok(r.0),
            r.0@ == q_mul(self.0@, x.0@),
    {
        Force(self.0.mul(x.0))
    }
}

impl Damping {
    /// Damping times velocity: force (linear damping term).
    pub fn mul(self, v: Velocity) -> (r: Force)
        requires
            rat_ok(self.0),
            rat_ok(v.0),
            q_fits(q_mul(self.0@, v.0@)),
        ensures
            rat_ok(r.0),
            r.0@ == q_mul(self.0@, v.0@),
    {
        Force(self.0.mul(v.0))
    }
}

} // verus!
