//! A physical instrument modelled as a network of point masses joined by
//! damped springs, advanced in time by generic explicit Runge-Kutta steppers.
//!
//! All kinematic quantities are exact rationals, so force assembly and
//! each integration step are specified and verified exactly, with no
//! rounding.

pub mod rational;
pub mod units;
pub mod instrument;
pub mod runge_kutta;
pub mod laws;
