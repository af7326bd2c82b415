use resonance::instrument::{Instrument, InstrumentState, Particle, ParticleState};
use resonance::rational::Rat;
use resonance::runge_kutta::{step_rk2, step_rk4, State};
use resonance::units::{Damping, Force, Length, Mass, Stiffness, Velocity};

fn r(num: i64, den: i64) -> Rat {
    Rat::new(num, den)
}

fn ri(n: i64) -> Rat {
    Rat::from_int(n)
}

#[test]
fn rational_arithmetic_exact() {
    assert!(r(1, 2).add(r(1, 3)).eq_rat(r(5, 6)));
    assert_eq!(r(1, 2).mul(r(1, 3)), r(1, 6));
    assert!(r(3, 4).sub(r(1, 4)).eq_rat(r(1, 2)));
    assert!(ri(-6).div(ri(2)).eq_rat(ri(-3)));
    assert!(r(1, 2).neg().eq_rat(r(-1, 2)));
    assert!(ri(3).is_pos());
    assert!(!ri(-3).is_pos());
    assert!(!Rat::zero().is_pos());
    // a zero numerator collapses to the canonical zero, so denominators
    // do not grow through chains of operations on zero values
    assert_eq!(r(1, 2).add(r(-1, 2)), Rat::zero());
    assert_eq!(r(7, 9).mul(Rat::zero()), Rat::zero());
}

#[test]
fn unit_arithmetic_exact() {
    let len = Length(r(3, 2)).add(Length(r(1, 2)));
    assert!(len.0.eq_rat(ri(2)));
    let dv = Velocity(ri(7)).sub(Velocity(ri(9)));
    assert!(dv.0.eq_rat(ri(-2)));
    let scaled = Length(ri(5)).scale(Rat::half());
    assert!(scaled.0.eq_rat(r(5, 2)));
    // stiffness x length -> force
    let f = Stiffness(ri(1000)).mul(Length(ri(-1)));
    assert!(f.0.eq_rat(ri(-1000)));
    // damping x velocity -> force
    let g = Damping(r(1, 10)).mul(Velocity(ri(20)));
    assert!(g.0.eq_rat(ri(2)));
    // force / mass -> acceleration
    let a = Force(ri(-6)).div(Mass(ri(2)));
    assert!(a.0.eq_rat(ri(-3)));
    // equal and opposite
    assert!(Force(r(7, 3)).neg().0.eq_rat(r(-7, 3)));
}

#[test]
fn builder_counts_and_handles() {
    let mut instrument = Instrument::new();
    assert_eq!(instrument.particle_count(), 0);
    assert_eq!(instrument.spring_count(), 0);
    let p0 = instrument.add_particle(Mass(ri(1)), Length(ri(0)));
    let p1 = instrument.add_particle(Mass(r(1, 100)), Length(ri(0)));
    assert_eq!(instrument.particle_count(), 2);
    instrument.add_spring(p0, p1, Length(ri(1)), Stiffness(ri(1000)), Damping(r(1, 10)), false);
    assert_eq!(instrument.spring_count(), 1);
    let (e0, e1) = instrument.spring_endpoints(0);
    assert_eq!(e0, p0);
    assert_eq!(e1, p1);
    // earthing twice has no further effect on the simulation
    instrument.earth(p0);
    instrument.earth(p0);
    let state = InstrumentState::new(&instrument);
    assert_eq!(state.particle_state(p0), ParticleState::new());
}

#[test]
fn chain_construction() {
    let mut instrument = Instrument::new();
    let p_start = instrument.add_particle(Mass(ri(1)), Length(ri(0)));
    let p_end = instrument.add_particle(Mass(ri(1)), Length(ri(0)));
    let before_particles = instrument.particle_count();
    let before_springs = instrument.spring_count();
    instrument.add_chain(p_start, p_end, 3, Mass(r(1, 100)), Stiffness(ri(300)), Damping(r(1, 2)));
    // n == 3 inserts exactly 2 new particles and 3 new springs
    assert_eq!(instrument.particle_count(), before_particles + 2);
    assert_eq!(instrument.spring_count(), before_springs + 3);
    let (s0a, s0b) = instrument.spring_endpoints(before_springs);
    let (s1a, s1b) = instrument.spring_endpoints(before_springs + 1);
    let (s2a, s2b) = instrument.spring_endpoints(before_springs + 2);
    // the first spring leaves p_start, the last arrives at p_end, and
    // consecutive springs share the intermediate particles
    assert_eq!(s0a, p_start);
    assert_eq!(s2b, p_end);
    assert_eq!(s0b, s1a);
    assert_eq!(s1b, s2a);
    assert_ne!(s0b, p_start);
    assert_ne!(s0b, p_end);
}

fn two_mass(natural_length: Rat) -> (Instrument, Particle, Particle) {
    let mut instrument = Instrument::new();
    let p0 = instrument.add_particle(Mass(ri(1)), Length(ri(0)));
    let p1 = instrument.add_particle(Mass(r(1, 100)), Length(ri(0)));
    instrument.add_spring(
        p0, p1, Length(natural_length), Stiffness(ri(1000)), Damping(r(1, 10)), false,
    );
    instrument.earth(p0);
    (instrument, p0, p1)
}

#[test]
fn two_mass_spring_equilibrium() {
    // zero strain, zero force: one fourth-order step from rest leaves
    // both particles exactly at rest
    let (instrument, p0, p1) = two_mass(Rat::zero());
    let state = InstrumentState::new(&instrument);
    let next = step_rk4(Rat::zero(), r(1, 1000), &state);
    assert_eq!(next.particle_state(p0), ParticleState::new());
    assert_eq!(next.particle_state(p1), ParticleState::new());
}

#[test]
fn two_mass_spring_tension_derivative() {
    // with natural length 1 and both particles at the origin the strain
    // is -1, so the spring is not at equilibrium: the derivative gives
    // endpoint 1 the acceleration (1000 * -1) / (1/100) = -100000,
    // while the earthed endpoint 0 stays clamped at zero
    let (instrument, p0, p1) = two_mass(ri(1));
    let state = InstrumentState::new(&instrument);
    let d = state.f(&Rat::zero());
    assert!(d.particle_state(p1).velocity.0.eq_rat(ri(-100000)));
    assert!(d.particle_state(p1).position.0.eq_rat(ri(0)));
    assert!(d.particle_state(p0).velocity.0.eq_rat(ri(0)));
}

#[test]
fn force_antisymmetry() {
    // equal masses, no earth, no damping: the two accelerations are
    // exact negations of each other for any strain
    let mut instrument = Instrument::new();
    let p0 = instrument.add_particle(Mass(ri(1)), Length(ri(0)));
    let p1 = instrument.add_particle(Mass(ri(1)), Length(ri(0)));
    instrument.add_spring(p0, p1, Length(ri(2)), Stiffness(ri(7)), Damping(ri(0)), false);
    let state = InstrumentState::new(&instrument);
    let d = state.f(&Rat::zero());
    let a0 = d.particle_state(p0).velocity.0;
    let a1 = d.particle_state(p1).velocity.0;
    // strain -2, force -14 applied to endpoint 1, +14 to endpoint 0
    assert!(a1.eq_rat(ri(-14)));
    assert!(a0.eq_rat(ri(14)));
    assert!(a0.eq_rat(a1.neg()));
}

#[test]
fn one_sided_suppression() {
    // positive strain on a one-sided spring contributes no force at all
    let mut instrument = Instrument::new();
    let p0 = instrument.add_particle(Mass(ri(1)), Length(ri(0)));
    let p1 = instrument.add_particle(Mass(ri(1)), Length(ri(0)));
    instrument.add_spring(p0, p1, Length(ri(-1)), Stiffness(ri(1000)), Damping(r(1, 10)), true);
    let state = InstrumentState::new(&instrument);
    let d = state.f(&Rat::zero());
    assert!(d.particle_state(p0).velocity.0.eq_rat(ri(0)));
    assert!(d.particle_state(p1).velocity.0.eq_rat(ri(0)));
    // the same spring taken two-sided does push
    let mut other = Instrument::new();
    let q0 = other.add_particle(Mass(ri(1)), Length(ri(0)));
    let q1 = other.add_particle(Mass(ri(1)), Length(ri(0)));
    other.add_spring(q0, q1, Length(ri(-1)), Stiffness(ri(1000)), Damping(r(1, 10)), false);
    let state2 = InstrumentState::new(&other);
    let d2 = state2.f(&Rat::zero());
    assert!(d2.particle_state(q1).velocity.0.eq_rat(ri(1000)));
}

#[test]
fn earth_clamping() {
    // every earthed particle's acceleration is exactly zero even under
    // tension
    let (instrument, p0, _p1) = two_mass(ri(1));
    let state = InstrumentState::new(&instrument);
    let d = state.f(&Rat::zero());
    assert!(d.particle_state(p0).velocity.0.eq_rat(ri(0)));
    assert!(d.particle_state(p0).position.0.eq_rat(ri(0)));
}

#[test]
fn hammer_strike() {
    let mut instrument = Instrument::new();
    let target = instrument.add_particle(Mass(ri(1)), Length(ri(0)));
    let hammer = instrument.add_particle(Mass(r(1, 20)), Length(ri(0)));
    instrument.add_spring(hammer, target, Length(ri(0)), Stiffness(ri(1000)), Damping(ri(0)), true);
    let mut state = InstrumentState::new(&instrument);
    state.trigger_hammer(hammer, target, Velocity(ri(10)));
    let hs = state.particle_state(hammer);
    assert_eq!(hs.position.0, Rat::zero());
    assert_eq!(hs.velocity.0, ri(10));
    assert_eq!(state.particle_state(target), ParticleState::new());
}

#[test]
fn zero_step_idempotence() {
    // a fourth-order step with dt == 0 returns the state unchanged
    let (instrument, p0, p1) = two_mass(ri(1));
    let mut state = InstrumentState::new(&instrument);
    state.trigger_hammer(p1, p0, Velocity(ri(10)));
    let next = step_rk4(ri(3), Rat::zero(), &state);
    assert_eq!(next.particle_state(p0), state.particle_state(p0));
    assert_eq!(next.particle_state(p1), state.particle_state(p1));
}

fn drifting_hammer() -> (Instrument, Particle, Particle) {
    // a one-sided spring that never pulls: the struck particle drifts
    // at constant velocity, which both steppers integrate exactly
    let mut instrument = Instrument::new();
    let target = instrument.add_particle(Mass(ri(1)), Length(ri(0)));
    let hammer = instrument.add_particle(Mass(ri(1)), Length(ri(0)));
    instrument.add_spring(target, hammer, Length(ri(0)), Stiffness(ri(1000)), Damping(ri(0)), true);
    (instrument, target, hammer)
}

#[test]
fn rk4_exact_drift() {
    let (instrument, target, hammer) = drifting_hammer();
    let mut state = InstrumentState::new(&instrument);
    state.trigger_hammer(hammer, target, Velocity(ri(10)));
    let next = step_rk4(Rat::zero(), Rat::one(), &state);
    assert!(next.particle_state(hammer).position.0.eq_rat(ri(10)));
    assert!(next.particle_state(hammer).velocity.0.eq_rat(ri(10)));
    assert!(next.particle_state(target).position.0.eq_rat(ri(0)));
    assert!(next.particle_state(target).velocity.0.eq_rat(ri(0)));
}

#[test]
fn rk2_exact_drift() {
    let (instrument, target, hammer) = drifting_hammer();
    let mut state = InstrumentState::new(&instrument);
    state.trigger_hammer(hammer, target, Velocity(ri(10)));
    let next = step_rk2(Rat::zero(), Rat::one(), &state);
    assert!(next.particle_state(hammer).position.0.eq_rat(ri(10)));
    assert!(next.particle_state(hammer).velocity.0.eq_rat(ri(10)));
    assert!(next.particle_state(target).velocity.0.eq_rat(ri(0)));
}

#[test]
fn vector_space_laws_on_values() {
    let (instrument, p0, p1) = two_mass(ri(1));
    let mut a = InstrumentState::new(&instrument);
    a.trigger_hammer(p1, p0, Velocity(ri(10)));
    let mut b = InstrumentState::new(&instrument);
    b.trigger_hammer(p1, p0, Velocity(ri(3)));
    let mut c = InstrumentState::new(&instrument);
    c.trigger_hammer(p1, p0, Velocity(r(5, 2)));
    // (a + b) + c == a + (b + c)
    let left = a.add(&b).add(&c);
    let right = a.add(&b.add(&c));
    for p in [p0, p1] {
        let l = left.particle_state(p);
        let rr = right.particle_state(p);
        assert!(l.position.0.eq_rat(rr.position.0));
        assert!(l.velocity.0.eq_rat(rr.velocity.0));
    }
    // a * 1 == a
    let one = a.mul(&Rat::one());
    for p in [p0, p1] {
        assert!(one.particle_state(p).velocity.0.eq_rat(a.particle_state(p).velocity.0));
        assert!(one.particle_state(p).position.0.eq_rat(a.particle_state(p).position.0));
    }
    // a * (s1 + s2) == a * s1 + a * s2
    let s1 = r(1, 2);
    let s2 = r(1, 3);
    let lhs = a.mul(&s1.add(s2));
    let rhs = a.mul(&s1).add(&a.mul(&s2));
    for p in [p0, p1] {
        assert!(lhs.particle_state(p).velocity.0.eq_rat(rhs.particle_state(p).velocity.0));
        assert!(lhs.particle_state(p).position.0.eq_rat(rhs.particle_state(p).position.0));
    }
}
