//! Laws of the force model, the state vector space, and the steppers,
//! stated and proved over the same specifications that the executable
//! functions are verified against.

use vstd::prelude::*;
use crate::rational::Rat;
use crate::rational::Qv;
use crate::rational::rat_ok;
use crate::rational::q_ok;
use crate::rational::q_eq;
use crate::rational::q_zero;
use crate::rational::q_one;
use crate::rational::q_add;
use crate::rational::q_neg;
use crate::rational::q_mul;
use crate::rational::q_div;
use crate::rational::lemma_q_eq_trans;
use crate::rational::lemma_q_add_assoc;
use crate::rational::lemma_q_mul_one;
use crate::rational::lemma_q_mul_distrib;
use crate::rational::lemma_q_add_zero;
use crate::rational::lemma_q_mul_zero;
use crate::rational::lemma_q_add_neg;
use crate::instrument::Particle;
use crate::instrument::ParticleState;
use crate::instrument::SpringSpec;
use crate::instrument::Instrument;
use crate::instrument::InstrumentState;
use crate::instrument::ps_ok;
use crate::instrument::spring_slack;
use crate::instrument::spring_force;
use crate::instrument::spring_force_on;
use crate::instrument::strain_of;
use crate::instrument::clamp_earths;
use crate::instrument::net_forces;
use crate::runge_kutta::State;
use crate::runge_kutta::deriv_scaled;
use crate::runge_kutta::rk_k1;
use crate::runge_kutta::rk_k1s;
use crate::runge_kutta::rk_k2;
use crate::runge_kutta::rk_k2t;
use crate::runge_kutta::rk_k3;
use crate::runge_kutta::rk_k3t;
use crate::runge_kutta::rk_k4;
use crate::runge_kutta::rk_k4s;
use crate::runge_kutta::rk_a1;
use crate::runge_kutta::rk_a2;
use crate::runge_kutta::rk_a3;
use crate::runge_kutta::rk_m3;
use crate::runge_kutta::rk4_rel;

verus! {

/// Two particle-state sequences hold the same values, elementwise and
/// slot by slot, as rationals.
pub open spec fn state_equiv(x: Seq<ParticleState>, y: Seq<ParticleState>) -> bool {
    &&& x.len() == y.len()
    &&& forall |i: int| 0 <= i < x.len() ==> {
        &&& q_eq((#[trigger] x[i]).position.0@, y[i].position.0@)
        &&& q_eq(x[i].velocity.0@, y[i].velocity.0@)
    }
}

/// Every scalar of every entry is well formed.
pub open spec fn st_ok(x: Seq<ParticleState>) -> bool {
    forall |i: int| 0 <= i < x.len() ==> ps_ok(#[trigger] x[i])
}

proof fn lemma_state_equiv_trans(x: Seq<ParticleState>, y: Seq<ParticleState>, z: Seq<ParticleState>)
    requires
        st_ok(x),
        st_ok(y),
        st_ok(z),
        state_equiv(x, y),
        state_equiv(y, z),
    ensures
        state_equiv(x, z),
{
    assert forall |i: int| 0 <= i < x.len() implies {
        &&& q_eq((#[trigger] x[i]).position.0@, z[i].position.0@)
        &&& q_eq(x[i].velocity.0@, z[i].velocity.0@)
    } by {
        lemma_q_eq_trans(x[i].position.0@, y[i].position.0@, z[i].position.0@);
        lemma_q_eq_trans(x[i].velocity.0@, y[i].velocity.0@, z[i].velocity.0@);
    }
}

/// Newton's third law in the force model: a spring that is not slack
/// contributes to endpoint 0 the exact negation of what it contributes
/// to endpoint 1, so the two contributions sum to zero, whatever the
/// strain and strain rate.
pub proof fn lemma_spring_force_antisymmetric(s: SpringSpec, sts: Seq<ParticleState>)
    requires
        0 <= s.p_0@ < sts.len(),
        0 <= s.p_1@ < sts.len(),
        rat_ok(s.natural_length.0),
        rat_ok(s.stiffness.0),
        rat_ok(s.damping.0),
        ps_ok(sts[s.p_0@]),
        ps_ok(sts[s.p_1@]),
        !spring_slack(s, sts),
    ensures
        spring_force_on(s, sts, 0) == q_neg(spring_force_on(s, sts, 1)),
        q_eq(q_add(spring_force_on(s, sts, 1), spring_force_on(s, sts, 0)), q_zero()),
{
    let f = spring_force(s, sts);
    crate::rational::lemma_q_ok_ops(sts[s.p_1@].position.0@, s.natural_length.0@);
    crate::rational::lemma_q_ok_ops(
        crate::rational::q_sub(sts[s.p_1@].position.0@, s.natural_length.0@),
        sts[s.p_0@].position.0@,
    );
    crate::rational::lemma_q_ok_ops(sts[s.p_1@].velocity.0@, sts[s.p_0@].velocity.0@);
    crate::rational::lemma_q_ok_ops(s.stiffness.0@, strain_of(s, sts));
    crate::rational::lemma_q_ok_ops(s.damping.0@, crate::instrument::strain_rate_of(s, sts));
    crate::rational::lemma_q_ok_ops(
        q_mul(s.stiffness.0@, strain_of(s, sts)),
        q_mul(s.damping.0@, crate::instrument::strain_rate_of(s, sts)),
    );
    assert(q_ok(f));
    lemma_q_add_neg(f);
}

/// One-sided suppression: a one-sided spring under positive strain
/// contributes exactly zero force to both endpoints, whatever its
/// stiffness and damping.
pub proof fn lemma_one_sided_suppression(s: SpringSpec, sts: Seq<ParticleState>)
    requires
        s.one_sided,
        strain_of(s, sts).n > 0,
    ensures
        spring_force_on(s, sts, 0) == q_zero(),
        spring_force_on(s, sts, 1) == q_zero(),
{
}

proof fn lemma_clamp_hits(earths: Seq<Particle>, base: Seq<Qv>, k: int, j: int)
    requires
        0 <= j < base.len(),
        forall |e: int| 0 <= e < earths.len() ==> 0 <= (#[trigger] earths[e])@ < base.len(),
        k <= earths.len(),
        exists |e: int| 0 <= e < k && (#[trigger] earths[e])@ == j,
    ensures
        clamp_earths(earths, base, k)[j] == q_zero(),
    decreases k,
{
    let prev = clamp_earths(earths, base, k - 1);
    crate::instrument::lemma_clamp_len(earths, base, k - 1);
    if earths[k - 1]@ == j {
        assert(clamp_earths(earths, base, k) == prev.update(j, q_zero()));
    } else {
        let e = choose |e: int| 0 <= e < k && (#[trigger] earths[e])@ == j;
        assert(0 <= e < k - 1);
        lemma_clamp_hits(earths, base, k - 1, j);
        assert(clamp_earths(earths, base, k)[j] == prev[j]);
    }
}

/// Earth clamping: after force assembly, an earthed particle's net force
/// is exactly zero, and so is the acceleration derived from it, whatever
/// the spring configuration.
pub proof fn lemma_earth_clamping(instr: Instrument, sts: Seq<ParticleState>, p: Particle)
    requires
        instr.wf(),
        sts.len() == instr.particles_view().len(),
        instr.earths_view().contains(p),
    ensures
        net_forces(instr, sts)[p@] == q_zero(),
        q_div(q_zero(), instr.particles_view()[p@].mass.0@) == q_zero(),
{
    let earths = instr.earths_view();
    let base = crate::instrument::accum_forces(
        instr.springs_view(), sts, instr.springs_view().len() as int,
    );
    assert forall |k: int| 0 <= k < instr.springs_view().len()
        implies 0 <= (#[trigger] instr.springs_view()[k]).p_0@ < sts.len()
            && 0 <= instr.springs_view()[k].p_1@ < sts.len() by {
        assert(instr.springs_view()[k].wf(instr.particles_view().len() as int));
    }
    crate::instrument::lemma_accum_len(instr.springs_view(), sts, instr.springs_view().len() as int);
    let e = choose |e: int| 0 <= e < earths.len() && #[trigger] earths[e] == p;
    assert(earths[e]@ == p@);
    lemma_clamp_hits(earths, base, earths.len() as int, p@);
    let m = instr.particles_view()[p@].mass.0@;
    assert(instr.particles_view()[p@].wf());
    assert(m.n >= 1);
    assert(0 * m.d == 0);
    assert(q_div(q_zero(), m) == q_zero());
}

/// Vector-space law: state addition is associative. If `ab`, `ab_c`,
/// `bc` and `a_bc` are the sums their names suggest, then `(a+b)+c`
/// and `a+(b+c)` hold the same values.
pub proof fn lemma_state_add_assoc<'a>(
    a: InstrumentState<'a>, b: InstrumentState<'a>, c: InstrumentState<'a>,
    ab: InstrumentState<'a>, ab_c: InstrumentState<'a>,
    bc: InstrumentState<'a>, a_bc: InstrumentState<'a>,
)
    requires
        a.wf(),
        b.wf(),
        c.wf(),
        a.states().len() == b.states().len(),
        a.states().len() == c.states().len(),
        a.add_ens(&b, ab),
        ab.add_ens(&c, ab_c),
        b.add_ens(&c, bc),
        a.add_ens(&bc, a_bc),
    ensures
        state_equiv(ab_c.states(), a_bc.states()),
{
    assert forall |i: int| 0 <= i < ab_c.states().len() implies {
        &&& q_eq((#[trigger] ab_c.states()[i]).position.0@, a_bc.states()[i].position.0@)
        &&& q_eq(ab_c.states()[i].velocity.0@, a_bc.states()[i].velocity.0@)
    } by {
        assert(ps_ok(a.states()[i]));
        assert(ps_ok(b.states()[i]));
        assert(ps_ok(c.states()[i]));
        lemma_q_add_assoc(
            a.states()[i].position.0@, b.states()[i].position.0@, c.states()[i].position.0@,
        );
        lemma_q_add_assoc(
            a.states()[i].velocity.0@, b.states()[i].velocity.0@, c.states()[i].velocity.0@,
        );
    }
}

/// Vector-space law: scaling a state by one leaves every value unchanged.
pub proof fn lemma_state_scale_one<'a>(
    a: InstrumentState<'a>, s: Rat, r: InstrumentState<'a>,
)
    requires
        a.wf(),
        s@ == q_one(),
        a.mul_ens(s, r),
    ensures
        state_equiv(r.states(), a.states()),
{
    assert forall |i: int| 0 <= i < r.states().len() implies {
        &&& q_eq((#[trigger] r.states()[i]).position.0@, a.states()[i].position.0@)
        &&& q_eq(r.states()[i].velocity.0@, a.states()[i].velocity.0@)
    } by {
        assert(ps_ok(a.states()[i]));
        lemma_q_mul_one(a.states()[i].position.0@);
        lemma_q_mul_one(a.states()[i].velocity.0@);
    }
}

/// Vector-space law: scaling distributes over the sum of scalars:
/// `a * (s1 + s2)` holds the same values as `a * s1 + a * s2`.
pub proof fn lemma_state_scale_distributes<'a>(
    a: InstrumentState<'a>, s1: Rat, s2: Rat, ssum: Rat,
    r_sum: InstrumentState<'a>, r1: InstrumentState<'a>, r2: InstrumentState<'a>,
    r12: InstrumentState<'a>,
)
    requires
        a.wf(),
        rat_ok(s1),
        rat_ok(s2),
        ssum@ == q_add(s1@, s2@),
        a.mul_ens(ssum, r_sum),
        a.mul_ens(s1, r1),
        a.mul_ens(s2, r2),
        r1.add_ens(&r2, r12),
    ensures
        state_equiv(r_sum.states(), r12.states()),
{
    assert forall |i: int| 0 <= i < r_sum.states().len() implies {
        &&& q_eq((#[trigger] r_sum.states()[i]).position.0@, r12.states()[i].position.0@)
        &&& q_eq(r_sum.states()[i].velocity.0@, r12.states()[i].velocity.0@)
    } by {
        assert(ps_ok(a.states()[i]));
        lemma_q_mul_distrib(a.states()[i].position.0@, s1@, s2@);
        lemma_q_mul_distrib(a.states()[i].velocity.0@, s1@, s2@);
    }
}

/// Every entry of the state holds exact zeros in both slots.
pub open spec fn zero_state<'a>(k: InstrumentState<'a>) -> bool {
    forall |i: int| 0 <= i < k.states().len() ==> {
        &&& (#[trigger] k.states()[i]).position.0@ == q_zero()
        &&& k.states()[i].velocity.0@ == q_zero()
    }
}

proof fn lemma_deriv_scaled_zero<'a>(
    y2: InstrumentState<'a>, ta: Rat, dt: Rat, k: InstrumentState<'a>,
)
    requires
        dt@.n == 0,
        deriv_scaled(y2, ta, dt, k),
    ensures
        zero_state(k),
        k.wf(),
{
    let d = choose |d: InstrumentState<'a>| #[trigger] y2.f_ens(ta, d) && d.mul_ens(dt, k);
    assert forall |i: int| 0 <= i < k.states().len() implies {
        &&& (#[trigger] k.states()[i]).position.0@ == q_zero()
        &&& k.states()[i].velocity.0@ == q_zero()
    } by {
        lemma_q_mul_zero(d.states()[i].position.0@, dt@);
        lemma_q_mul_zero(d.states()[i].velocity.0@, dt@);
    }
}

proof fn lemma_scale_of_zero<'a>(k: InstrumentState<'a>, s: Rat, x: InstrumentState<'a>)
    requires
        zero_state(k),
        k.mul_ens(s, x),
    ensures
        zero_state(x),
        x.wf(),
{
    assert forall |i: int| 0 <= i < x.states().len() implies {
        &&& (#[trigger] x.states()[i]).position.0@ == q_zero()
        &&& x.states()[i].velocity.0@ == q_zero()
    } by {
        assert(q_mul(q_zero(), s@) == q_zero());
    }
}

proof fn lemma_add_zero_state<'a>(
    y2: InstrumentState<'a>, x: InstrumentState<'a>, m: InstrumentState<'a>,
)
    requires
        y2.wf(),
        zero_state(x),
        x.states().len() == y2.states().len(),
        y2.add_ens(&x, m),
    ensures
        state_equiv(m.states(), y2.states()),
        m.wf(),
{
    assert forall |i: int| 0 <= i < m.states().len() implies {
        &&& q_eq((#[trigger] m.states()[i]).position.0@, y2.states()[i].position.0@)
        &&& q_eq(m.states()[i].velocity.0@, y2.states()[i].velocity.0@)
    } by {
        assert(ps_ok(y2.states()[i]));
        lemma_q_add_zero(y2.states()[i].position.0@, x.states()[i].position.0@);
        lemma_q_add_zero(y2.states()[i].velocity.0@, x.states()[i].velocity.0@);
    }
}

/// Zero-step idempotence: a fourth-order step with `dt == 0` returns a
/// state holding exactly the values it started from, whatever the state
/// and the time.
pub proof fn lemma_step_rk4_zero_dt<'a>(
    t: Rat, dt: Rat, y: InstrumentState<'a>, r: InstrumentState<'a>,
)
    requires
        y.wf(),
        dt@.n == 0,
        rk4_rel(t, dt, y, r),
    ensures
        state_equiv(r.states(), y.states()),
{
    let (a3, x4) = choose |a3: InstrumentState<'a>, x4: InstrumentState<'a>|
        #[trigger] rk_a3(t, dt, y, a3) && #[trigger] rk_k4s(t, dt, y, x4)
        && a3.add_ens(&x4, r);
    // x4 is k4 * 1/6, and k4 is a derivative scaled by the zero dt
    let k4 = choose |k4: InstrumentState<'a>| #[trigger] rk_k4(t, dt, y, k4)
        && k4.mul_ens(crate::rational::rat_sixth(), x4);
    let m3 = choose |m3: InstrumentState<'a>| #[trigger] rk_m3(t, dt, y, m3)
        && deriv_scaled(m3, crate::runge_kutta::end_time(t, dt), dt, k4);
    lemma_deriv_scaled_zero(m3, crate::runge_kutta::end_time(t, dt), dt, k4);
    lemma_scale_of_zero(k4, crate::rational::rat_sixth(), x4);
    // a3 = a2 + k3/3
    let (a2, x3) = choose |a2: InstrumentState<'a>, x3: InstrumentState<'a>|
        #[trigger] rk_a2(t, dt, y, a2) && #[trigger] rk_k3t(t, dt, y, x3)
        && a2.add_ens(&x3, a3);
    let k3 = choose |k3: InstrumentState<'a>| #[trigger] rk_k3(t, dt, y, k3)
        && k3.mul_ens(crate::rational::rat_third(), x3);
    let m2 = choose |m2: InstrumentState<'a>| #[trigger] crate::runge_kutta::rk_m2(t, dt, y, m2)
        && deriv_scaled(m2, crate::runge_kutta::mid_time(t, dt), dt, k3);
    lemma_deriv_scaled_zero(m2, crate::runge_kutta::mid_time(t, dt), dt, k3);
    lemma_scale_of_zero(k3, crate::rational::rat_third(), x3);
    // a2 = a1 + k2/3
    let (a1, x2) = choose |a1: InstrumentState<'a>, x2: InstrumentState<'a>|
        #[trigger] rk_a1(t, dt, y, a1) && #[trigger] rk_k2t(t, dt, y, x2)
        && a1.add_ens(&x2, a2);
    let k2 = choose |k2: InstrumentState<'a>| #[trigger] rk_k2(t, dt, y, k2)
        && k2.mul_ens(crate::rational::rat_third(), x2);
    let m1 = choose |m1: InstrumentState<'a>| #[trigger] crate::runge_kutta::rk_m1(t, dt, y, m1)
        && deriv_scaled(m1, crate::runge_kutta::mid_time(t, dt), dt, k2);
    lemma_deriv_scaled_zero(m1, crate::runge_kutta::mid_time(t, dt), dt, k2);
    lemma_scale_of_zero(k2, crate::rational::rat_third(), x2);
    // a1 = y + k1/6
    let x1 = choose |x1: InstrumentState<'a>| #[trigger] rk_k1s(t, dt, y, x1)
        && y.add_ens(&x1, a1);
    let k1 = choose |k1: InstrumentState<'a>| #[trigger] rk_k1(t, dt, y, k1)
        && k1.mul_ens(crate::rational::rat_sixth(), x1);
    lemma_deriv_scaled_zero(y, t, dt, k1);
    lemma_scale_of_zero(k1, crate::rational::rat_sixth(), x1);
    // each sum leaves the values unchanged
    lemma_add_zero_state(y, x1, a1);
    lemma_add_zero_state(a1, x2, a2);
    lemma_add_zero_state(a2, x3, a3);
    lemma_add_zero_state(a3, x4, r);
    lemma_state_equiv_trans(a2.states(), a1.states(), y.states());
    lemma_state_equiv_trans(a3.states(), a2.states(), y.states());
    lemma_state_equiv_trans(r.states(), a3.states(), y.states());
}

} // verus!
