//! The mass-spring network and its kinematic state.
//!
//! An `Instrument` is an append-only description of particles, springs and
//! earthed (fixed) particles. An `InstrumentState` is a per-particle
//! position/velocity snapshot borrowed against one instrument; it is the
//! state type fed to the Runge-Kutta steppers, and its derivative function
//! assembles the spring forces.

use vstd::prelude::*;
use crate::rational::Rat;
use crate::rational::Qv;
use crate::rational::rat_ok;
use crate::rational::q_zero;
use crate::rational::q_add;
use crate::rational::q_sub;
use crate::rational::q_neg;
use crate::rational::q_mul;
use crate::rational::q_div;
use crate::rational::q_fits;
use crate::units::Mass;
use crate::units::Length;
use crate::units::Velocity;
use crate::units::Force;
use crate::units::Stiffness;
use crate::units::Damping;
use crate::runge_kutta::State;

verus! {

/// Opaque handle on a particle of an `Instrument`: privately, the index
/// of its entry in the instrument's particle list.
#[derive(Clone, Copy, PartialEq, Eq, Structural, Debug)]
pub struct Particle(usize);

/// Opaque handle on a spring of an `Instrument`.
#[derive(Clone, Copy, PartialEq, Eq, Structural, Debug)]
pub struct Spring(usize);

impl View for Particle {
    type V = int;

    closed spec fn view(&self) -> int {
        self.0 as int
    }
}

impl View for Spring {
    type V = int;

    closed spec fn view(&self) -> int {
        self.0 as int
    }
}

/// Specification of a particle: mass and initial position, set once.
#[derive(Clone, Copy, PartialEq, Eq, Structural, Debug)]
pub struct ParticleSpec {
    pub mass: Mass,
    pub position: Length,
}

impl ParticleSpec {
    /// A particle specification is well formed when its scalars are well
    /// formed and its mass is strictly positive.
    pub open spec fn wf(&self) -> bool {
        &&& rat_ok(self.mass.0)
        &&& self.mass.0@.n >= 1
        &&& rat_ok(self.position.0)
    }
}

/// Specification of a spring: its two endpoints, natural length,
/// stiffness, damping, and whether it can only push (one sided).
#[derive(Clone, Copy, PartialEq, Eq, Structural, Debug)]
pub struct SpringSpec {
    pub p_0: Particle,
    pub p_1: Particle,
    pub natural_length: Length,
    pub stiffness: Stiffness,
    pub damping: Damping,
    pub one_sided: bool,
}

impl SpringSpec {
    /// Well-formedness against a particle count `n`.
    pub open spec fn wf(&self, n: int) -> bool {
        &&& 0 <= self.p_0@ < n
        &&& 0 <= self.p_1@ < n
        &&& rat_ok(self.natural_length.0)
        &&& rat_ok(self.stiffness.0)
        &&& rat_ok(self.damping.0)
    }
}

proof fn lemma_push_entries<A>(pre: Seq<A>, post: Seq<A>, v: A)
    requires
        post == pre.push(v),
    ensures
        post.len() == pre.len() + 1,
        post[pre.len() as int] == v,
        forall |j: int| 0 <= j < pre.len() ==> #[trigger] post[j] == pre[j],
{
    assert(pre.push(v)[pre.len() as int] == v);
    assert forall |j: int| 0 <= j < pre.len() implies #[trigger] post[j] == pre[j] by {
        assert(pre.push(v)[j] == pre[j]);
        assert(post[j] == pre.push(v)[j]);
    }
}

proof fn lemma_chain_step(
    entry_springs: Seq<SpringSpec>, cur_springs: Seq<SpringSpec>,
    entry_parts: Seq<ParticleSpec>, cur_parts: Seq<ParticleSpec>,
    orig_springs: Seq<SpringSpec>, orig_parts: Seq<ParticleSpec>,
    old_plen: int, old_slen: int, p0v: int, t: int,
    snew: SpringSpec, pnew: ParticleSpec,
)
    requires
        2 <= t,
        entry_springs.len() == old_slen + t - 2,
        entry_parts.len() == old_plen + t - 2,
        old_slen >= 0,
        old_plen >= 0,
        cur_springs == entry_springs.push(snew),
        cur_parts == entry_parts.push(pnew),
        snew.p_0@ == (if t == 2 { p0v } else { old_plen + t - 3 }),
        snew.p_1@ == old_plen + t - 2,
        forall |i: int| 0 <= i < t - 2
            ==> (#[trigger] entry_springs[old_slen + i]).p_0@
                == (if i == 0 { p0v } else { old_plen + i - 1 }),
        forall |i: int| 0 <= i < t - 2
            ==> (#[trigger] entry_springs[old_slen + i]).p_1@ == old_plen + i,
        forall |i: int| 0 <= i < t - 2
            ==> (#[trigger] entry_springs[old_slen + i]).natural_length == snew.natural_length,
        forall |i: int| 0 <= i < t - 2
            ==> (#[trigger] entry_springs[old_slen + i]).stiffness == snew.stiffness,
        forall |i: int| 0 <= i < t - 2
            ==> (#[trigger] entry_springs[old_slen + i]).damping == snew.damping,
        forall |i: int| 0 <= i < t - 2
            ==> (#[trigger] entry_springs[old_slen + i]).one_sided == snew.one_sided,
        forall |i: int| 0 <= i < t - 2 ==> #[trigger] entry_parts[old_plen + i] == pnew,
        forall |i: int| 0 <= i < old_slen ==> #[trigger] entry_springs[i] == orig_springs[i],
        forall |i: int| 0 <= i < old_plen ==> #[trigger] entry_parts[i] == orig_parts[i],
    ensures
        forall |i: int| 0 <= i < t - 1
            ==> (#[trigger] cur_springs[old_slen + i]).p_0@
                == (if i == 0 { p0v } else { old_plen + i - 1 }),
        forall |i: int| 0 <= i < t - 1
            ==> (#[trigger] cur_springs[old_slen + i]).p_1@ == old_plen + i,
        forall |i: int| 0 <= i < t - 1
            ==> (#[trigger] cur_springs[old_slen + i]).natural_length == snew.natural_length,
        forall |i: int| 0 <= i < t - 1
            ==> (#[trigger] cur_springs[old_slen + i]).stiffness == snew.stiffness,
        forall |i: int| 0 <= i < t - 1
            ==> (#[trigger] cur_springs[old_slen + i]).damping == snew.damping,
        forall |i: int| 0 <= i < t - 1
            ==> (#[trigger] cur_springs[old_slen + i]).one_sided == snew.one_sided,
        forall |i: int| 0 <= i < t - 1 ==> #[trigger] cur_parts[old_plen + i] == pnew,
        forall |i: int| 0 <= i < old_slen ==> #[trigger] cur_springs[i] == orig_springs[i],
        forall |i: int| 0 <= i < old_plen ==> #[trigger] cur_parts[i] == orig_parts[i],
{
    lemma_push_entries(entry_springs, cur_springs, snew);
    lemma_push_entries(entry_parts, cur_parts, pnew);
    assert forall |i: int| 0 <= i < t - 1 implies {
        let s = #[trigger] cur_springs[old_slen + i];
        &&& s.p_0@ == (if i == 0 { p0v } else { old_plen + i - 1 })
        &&& s.p_1@ == old_plen + i
        &&& s.natural_length == snew.natural_length
        &&& s.stiffness == snew.stiffness
        &&& s.damping == snew.damping
        &&& s.one_sided == snew.one_sided
    } by {
        if i == t - 2 {
            assert(cur_springs[old_slen + i] == cur_springs[entry_springs.len() as int]);
            assert(cur_springs[old_slen + i] == snew);
        } else {
            assert(cur_springs[old_slen + i] == entry_springs[old_slen + i]);
        }
    }
    assert forall |i: int| 0 <= i < t - 1 implies #[trigger] cur_parts[old_plen + i] == pnew by {
        if i == t - 2 {
            assert(cur_parts[old_plen + i] == cur_parts[entry_parts.len() as int]);
        } else {
            assert(cur_parts[old_plen + i] == entry_parts[old_plen + i]);
        }
    }
    assert forall |i: int| 0 <= i < old_slen
        implies #[trigger] cur_springs[i] == orig_springs[i] by {
        assert(cur_springs[i] == entry_springs[i]);
    }
    assert forall |i: int| 0 <= i < old_plen
        implies #[trigger] cur_parts[i] == orig_parts[i] by {
        assert(cur_parts[i] == entry_parts[i]);
    }
}

proof fn lemma_chain_final(
    before_springs: Seq<SpringSpec>, cur_springs: Seq<SpringSpec>,
    orig_springs: Seq<SpringSpec>,
    before_parts: Seq<ParticleSpec>, cur_parts: Seq<ParticleSpec>,
    orig_parts: Seq<ParticleSpec>,
    old_plen: int, old_slen: int, p0v: int, pnv: int, n: int,
    slast: SpringSpec, pnew: ParticleSpec,
)
    requires
        1 <= n,
        old_slen >= 0,
        old_plen >= 0,
        before_springs.len() == old_slen + n - 1,
        cur_springs == before_springs.push(slast),
        slast.p_0@ == (if n == 1 { p0v } else { old_plen + n - 2 }),
        slast.p_1@ == pnv,
        forall |i: int| 0 <= i < n - 1
            ==> (#[trigger] before_springs[old_slen + i]).p_0@
                == (if i == 0 { p0v } else { old_plen + i - 1 }),
        forall |i: int| 0 <= i < n - 1
            ==> (#[trigger] before_springs[old_slen + i]).p_1@ == old_plen + i,
        forall |i: int| 0 <= i < n - 1
            ==> (#[trigger] before_springs[old_slen + i]).natural_length == slast.natural_length,
        forall |i: int| 0 <= i < n - 1
            ==> (#[trigger] before_springs[old_slen + i]).stiffness == slast.stiffness,
        forall |i: int| 0 <= i < n - 1
            ==> (#[trigger] before_springs[old_slen + i]).damping == slast.damping,
        forall |i: int| 0 <= i < n - 1
            ==> (#[trigger] before_springs[old_slen + i]).one_sided == slast.one_sided,
        forall |i: int| 0 <= i < old_slen ==> #[trigger] before_springs[i] == orig_springs[i],
        cur_parts == before_parts,
        forall |i: int| 0 <= i < old_plen ==> #[trigger] before_parts[i] == orig_parts[i],
        forall |i: int| 0 <= i < n - 1 ==> #[trigger] before_parts[old_plen + i] == pnew,
    ensures
        forall |i: int| 0 <= i < n ==> {
            let s = #[trigger] cur_springs[old_slen + i];
            &&& s.p_0@ == (if i == 0 { p0v } else { old_plen + i - 1 })
            &&& s.p_1@ == (if i == n - 1 { pnv } else { old_plen + i })
            &&& s.natural_length == slast.natural_length
            &&& s.stiffness == slast.stiffness
            &&& s.damping == slast.damping
            &&& s.one_sided == slast.one_sided
        },
        forall |i: int| 0 <= i < old_slen ==> #[trigger] cur_springs[i] == orig_springs[i],
        forall |i: int| 0 <= i < old_plen ==> #[trigger] cur_parts[i] == orig_parts[i],
        forall |i: int| 0 <= i < n - 1 ==> #[trigger] cur_parts[old_plen + i] == pnew,
{
    lemma_push_entries(before_springs, cur_springs, slast);
    assert forall |i: int| 0 <= i < n implies {
        let s = #[trigger] cur_springs[old_slen + i];
        &&& s.p_0@ == (if i == 0 { p0v } else { old_plen + i - 1 })
        &&& s.p_1@ == (if i == n - 1 { pnv } else { old_plen + i })
        &&& s.natural_length == slast.natural_length
        &&& s.stiffness == slast.stiffness
        &&& s.damping == slast.damping
        &&& s.one_sided == slast.one_sided
    } by {
        if i == n - 1 {
            assert(cur_springs[old_slen + i] == cur_springs[before_springs.len() as int]);
            assert(cur_springs[old_slen + i] == slast);
        } else {
            assert(cur_springs[old_slen + i] == before_springs[old_slen + i]);
        }
    }
    assert forall |i: int| 0 <= i < old_slen
        implies #[trigger] cur_springs[i] == orig_springs[i] by {
        assert(cur_springs[i] == before_springs[i]);
    }
    assert forall |i: int| 0 <= i < old_plen
        implies #[trigger] cur_parts[i] == orig_parts[i] by {
        assert(cur_parts[i] == before_parts[i]);
    }
    assert forall |i: int| 0 <= i < n - 1
        implies #[trigger] cur_parts[old_plen + i] == pnew by {
        assert(cur_parts[old_plen + i] == before_parts[old_plen + i]);
    }
}

/// The network: particles, springs, and earthed particles, built through
/// the append-only methods and then treated as read only.
pub struct Instrument {
    particles: Vec<ParticleSpec>,
    springs: Vec<SpringSpec>,
    earths: Vec<Particle>,
}

impl Instrument {
    /// The particle specifications, in insertion order.
    pub closed spec fn particles_view(&self) -> Seq<ParticleSpec> {
        self.particles@
    }

    /// The spring specifications, in insertion order.
    pub closed spec fn springs_view(&self) -> Seq<SpringSpec> {
        self.springs@
    }

    /// The earthed particles, in insertion order (repeats allowed).
    pub closed spec fn earths_view(&self) -> Seq<Particle> {
        self.earths@
    }

    /// Every spring and earth entry refers to an existing particle, and
    /// every stored scalar is well formed.
    pub open spec fn wf(&self) -> bool {
        &&& forall |i: int| 0 <= i < self.particles_view().len()
            ==> (#[trigger] self.particles_view()[i]).wf()
        &&& forall |i: int| 0 <= i < self.springs_view().len()
            ==> (#[trigger] self.springs_view()[i]).wf(self.particles_view().len() as int)
        &&& forall |i: int| 0 <= i < self.earths_view().len()
            ==> 0 <= (#[trigger] self.earths_view()[i])@ < self.particles_view().len()
    }

    /// An empty network.
    pub fn new() -> (r: Instrument)
        ensures
            r.wf(),
            r.particles_view().len() == 0,
            r.springs_view().len() == 0,
            r.earths_view().len() == 0,
    {
        Instrument { particles: Vec::new(), springs: Vec::new(), earths: Vec::new() }
    }

    /// Number of particles.
    pub fn particle_count(&self) -> (n: usize)
        ensures
            n == self.particles_view().len(),
    {
        self.particles.len()
    }

    /// Number of springs.
    pub fn spring_count(&self) -> (n: usize)
        ensures
            n == self.springs_view().len(),
    {
        self.springs.len()
    }

    /// The two endpoint handles of the spring at a given index.
    pub fn spring_endpoints(&self, i: usize) -> (r: (Particle, Particle))
        requires
            i < self.springs_view().len(),
        ensures
            r.0 == self.springs_view()[i as int].p_0,
            r.1 == self.springs_view()[i as int].p_1,
    {
        (self.springs[i].p_0, self.springs[i].p_1)
    }

    /// Appends a particle with the given positive mass and initial
    /// position; the returned handle is its index.
    pub fn add_particle(&mut self, mass: Mass, position: Length) -> (p: Particle)
        requires
            old(self).wf(),
            rat_ok(mass.0),
            mass.0@.n >= 1,
            rat_ok(position.0),
        ensures
            final(self).wf(),
            final(self).particles_view()
                == old(self).particles_view().push(ParticleSpec { mass, position }),
            final(self).springs_view() == old(self).springs_view(),
            final(self).earths_view() == old(self).earths_view(),
            p@ == old(self).particles_view().len(),
    {
        self.particles.push(ParticleSpec { mass, position });
        proof {
            assert forall |i: int| 0 <= i < self.particles_view().len()
                implies (#[trigger] self.particles_view()[i]).wf() by {
                if i < old(self).particles_view().len() {
                    assert(self.particles_view()[i] == old(self).particles_view()[i]);
                    assert(old(self).particles_view()[i].wf());
                }
            }
            assert forall |i: int| 0 <= i < self.springs_view().len()
                implies (#[trigger] self.springs_view()[i]).wf(
                    self.particles_view().len() as int,
                ) by {
                assert(self.springs_view()[i] == old(self).springs_view()[i]);
                assert(old(self).springs_view()[i].wf(
                    old(self).particles_view().len() as int,
                ));
            }
            assert forall |i: int| 0 <= i < self.earths_view().len()
                implies 0 <= (#[trigger] self.earths_view()[i])@
                    < self.particles_view().len() by {
                assert(self.earths_view()[i] == old(self).earths_view()[i]);
                assert(0 <= old(self).earths_view()[i]@
                    < old(self).particles_view().len());
            }
        }
        Particle(self.particles.len() - 1)
    }

    /// Appends a spring between two existing particles; the returned
    /// handle is its index. A self loop (`p_0 == p_1`) is permitted but
    /// physically degenerate.
    pub fn add_spring(
        &mut self,
        p_0: Particle,
        p_1: Particle,
        natural_length: Length,
        stiffness: Stiffness,
        damping: Damping,
        one_sided: bool,
    ) -> (s: Spring)
        requires
            old(self).wf(),
            0 <= p_0@ < old(self).particles_view().len(),
            0 <= p_1@ < old(self).particles_view().len(),
            rat_ok(natural_length.0),
            rat_ok(stiffness.0),
            rat_ok(damping.0),
        ensures
            final(self).wf(),
            final(self).particles_view() == old(self).particles_view(),
            final(self).springs_view() == old(self).springs_view().push(
                SpringSpec { p_0, p_1, natural_length, stiffness, damping, one_sided },
            ),
            final(self).earths_view() == old(self).earths_view(),
            s@ == old(self).springs_view().len(),
    {
        self.springs.push(SpringSpec { p_0, p_1, natural_length, stiffness, damping, one_sided });
        proof {
            assert forall |i: int| 0 <= i < self.particles_view().len()
                implies (#[trigger] self.particles_view()[i]).wf() by {
                assert(self.particles_view()[i] == old(self).particles_view()[i]);
                assert(old(self).particles_view()[i].wf());
            }
            assert forall |i: int| 0 <= i < self.springs_view().len()
                implies (#[trigger] self.springs_view()[i]).wf(
                    self.particles_view().len() as int,
                ) by {
                if i < old(self).springs_view().len() {
                    assert(self.springs_view()[i] == old(self).springs_view()[i]);
                    assert(old(self).springs_view()[i].wf(
                        old(self).particles_view().len() as int,
                    ));
                }
            }
            assert forall |i: int| 0 <= i < self.earths_view().len()
                implies 0 <= (#[trigger] self.earths_view()[i])@
                    < self.particles_view().len() by {
                assert(self.earths_view()[i] == old(self).earths_view()[i]);
                assert(0 <= old(self).earths_view()[i]@
                    < old(self).particles_view().len());
            }
        }
        Spring(self.springs.len() - 1)
    }

    /// Marks a particle as earthed (held fixed). Earthing the same
    /// particle again appends another entry with no further effect.
    pub fn earth(&mut self, p: Particle)
        requires
            old(self).wf(),
            0 <= p@ < old(self).particles_view().len(),
        ensures
            final(self).wf(),
            final(self).particles_view() == old(self).particles_view(),
            final(self).springs_view() == old(self).springs_view(),
            final(self).earths_view() == old(self).earths_view().push(p),
    {
        self.earths.push(p);
        proof {
            assert forall |i: int| 0 <= i < self.particles_view().len()
                implies (#[trigger] self.particles_view()[i]).wf() by {
                assert(self.particles_view()[i] == old(self).particles_view()[i]);
                assert(old(self).particles_view()[i].wf());
            }
            assert forall |i: int| 0 <= i < self.springs_view().len()
                implies (#[trigger] self.springs_view()[i]).wf(
                    self.particles_view().len() as int,
                ) by {
                assert(self.springs_view()[i] == old(self).springs_view()[i]);
                assert(old(self).springs_view()[i].wf(
                    old(self).particles_view().len() as int,
                ));
            }
            assert forall |i: int| 0 <= i < self.earths_view().len()
                implies 0 <= (#[trigger] self.earths_view()[i])@
                    < self.particles_view().len() by {
                if i < old(self).earths_view().len() {
                    assert(self.earths_view()[i] == old(self).earths_view()[i]);
                    assert(0 <= old(self).earths_view()[i]@
                        < old(self).particles_view().len());
                }
            }
        }
    }

    /// Inserts `n - 1` particles of the given mass between `p_0` and
    /// `p_n`, joined in series by `n` springs of zero natural length and
    /// identical stiffness and damping, none of them one sided. With
    /// `n == 3`: `(p_0) -- (new 1) -- (new 2) -- (p_n)`.
    pub fn add_chain(
        &mut self,
        p_0: Particle,
        p_n: Particle,
        n: usize,
        mass: Mass,
        stiffness: Stiffness,
        damping: Damping,
    )
        requires
            old(self).wf(),
            0 <= p_0@ < old(self).particles_view().len(),
            0 <= p_n@ < old(self).particles_view().len(),
            n >= 1,
            rat_ok(mass.0),
            mass.0@.n >= 1,
            rat_ok(stiffness.0),
            rat_ok(damping.0),
        ensures
            final(self).wf(),
            final(self).earths_view() == old(self).earths_view(),
            final(self).particles_view().len() == old(self).particles_view().len() + n - 1,
            final(self).springs_view().len() == old(self).springs_view().len() + n,
            forall |i: int| 0 <= i < old(self).particles_view().len()
                ==> #[trigger] final(self).particles_view()[i] == old(self).particles_view()[i],
            forall |i: int| 0 <= i < n - 1
                ==> #[trigger] final(self).particles_view()[old(self).particles_view().len() + i]
                    == (ParticleSpec { mass, position: Length(Rat { num: 0, den: 1 }) }),
            forall |i: int| 0 <= i < old(self).springs_view().len()
                ==> #[trigger] final(self).springs_view()[i] == old(self).springs_view()[i],
            forall |i: int| 0 <= i < n ==> {
                let s = #[trigger] final(self).springs_view()[old(self).springs_view().len() + i];
                &&& s.p_0@ == (if i == 0 { p_0@ } else {
                    old(self).particles_view().len() + i - 1
                })
                &&& s.p_1@ == (if i == n - 1 { p_n@ } else {
                    old(self).particles_view().len() + i
                })
                &&& s.natural_length == (Length(Rat { num: 0, den: 1 }))
                &&& s.stiffness == stiffness
                &&& s.damping == damping
                &&& s.one_sided == false
            },
    {
        let ghost old_plen = old(self).particles_view().len() as int;
        let ghost old_slen = old(self).springs_view().len() as int;
        let mut p_prev = p_0;
        let mut t: usize = 1;
        while t < n
            invariant
                1 <= t <= n,
                old_plen == old(self).particles_view().len(),
                old_slen == old(self).springs_view().len(),
                self.wf(),
                rat_ok(mass.0),
                mass.0@.n >= 1,
                rat_ok(stiffness.0),
                rat_ok(damping.0),
                0 <= p_0@ < old_plen,
                0 <= p_n@ < old_plen,
                self.earths_view() == old(self).earths_view(),
                self.particles_view().len() == old_plen + t - 1,
                self.springs_view().len() == old_slen + t - 1,
                forall |i: int| 0 <= i < old_plen
                    ==> #[trigger] self.particles_view()[i] == old(self).particles_view()[i],
                forall |i: int| 0 <= i < t - 1
                    ==> #[trigger] self.particles_view()[old_plen + i]
                        == (ParticleSpec { mass, position: Length(Rat { num: 0, den: 1 }) }),
                forall |i: int| 0 <= i < old_slen
                    ==> #[trigger] self.springs_view()[i] == old(self).springs_view()[i],
                forall |i: int| 0 <= i < t - 1
                    ==> (#[trigger] self.springs_view()[old_slen + i]).p_0@
                        == (if i == 0 { p_0@ } else { old_plen + i - 1 }),
                forall |i: int| 0 <= i < t - 1
                    ==> (#[trigger] self.springs_view()[old_slen + i]).p_1@ == old_plen + i,
                forall |i: int| 0 <= i < t - 1
                    ==> (#[trigger] self.springs_view()[old_slen + i]).natural_length
                        == (Length(Rat { num: 0, den: 1 })),
                forall |i: int| 0 <= i < t - 1
                    ==> (#[trigger] self.springs_view()[old_slen + i]).stiffness == stiffness,
                forall |i: int| 0 <= i < t - 1
                    ==> (#[trigger] self.springs_view()[old_slen + i]).damping == damping,
                forall |i: int| 0 <= i < t - 1
                    ==> (#[trigger] self.springs_view()[old_slen + i]).one_sided == false,
                p_prev@ == (if t == 1 { p_0@ } else { old_plen + t - 2 }),
                0 <= p_prev@ < self.particles_view().len(),
            decreases n - t,
        {
            let ghost entry = *self;
            proof {
                assert forall |i: int| 0 <= i < t - 1 implies
                    (#[trigger] entry.springs_view()[old_slen + i]).p_0@
                        == (if i == 0 { p_0@ } else { old_plen + i - 1 }) by {
                    assert(entry.springs_view()[old_slen + i] == self.springs_view()[old_slen + i]);
                }
                assert forall |i: int| 0 <= i < t - 1 implies
                    (#[trigger] entry.springs_view()[old_slen + i]).p_1@ == old_plen + i by {
                    assert(entry.springs_view()[old_slen + i] == self.springs_view()[old_slen + i]);
                }
                assert forall |i: int| 0 <= i < t - 1 implies
                    (#[trigger] entry.springs_view()[old_slen + i]).natural_length
                        == (Length(Rat { num: 0, den: 1 })) by {
                    assert(entry.springs_view()[old_slen + i] == self.springs_view()[old_slen + i]);
                }
                assert forall |i: int| 0 <= i < t - 1 implies
                    (#[trigger] entry.springs_view()[old_slen + i]).stiffness == stiffness by {
                    assert(entry.springs_view()[old_slen + i] == self.springs_view()[old_slen + i]);
                }
                assert forall |i: int| 0 <= i < t - 1 implies
                    (#[trigger] entry.springs_view()[old_slen + i]).damping == damping by {
                    assert(entry.springs_view()[old_slen + i] == self.springs_view()[old_slen + i]);
                }
                assert forall |i: int| 0 <= i < t - 1 implies
                    (#[trigger] entry.springs_view()[old_slen + i]).one_sided == false by {
                    assert(entry.springs_view()[old_slen + i] == self.springs_view()[old_slen + i]);
                }
                assert forall |i: int| 0 <= i < old_slen implies
                    #[trigger] entry.springs_view()[i] == old(self).springs_view()[i] by {
                    assert(entry.springs_view()[i] == self.springs_view()[i]);
                }
                assert forall |i: int| 0 <= i < t - 1 implies
                    #[trigger] entry.particles_view()[old_plen + i]
                        == (ParticleSpec { mass, position: Length(Rat { num: 0, den: 1 }) }) by {
                    assert(entry.particles_view()[old_plen + i]
                        == self.particles_view()[old_plen + i]);
                }
                assert forall |i: int| 0 <= i < old_plen implies
                    #[trigger] entry.particles_view()[i] == old(self).particles_view()[i] by {
                    assert(entry.particles_view()[i] == self.particles_view()[i]);
                }
            }
            let zero_len = Length(Rat::zero());
            let p_from = p_prev;
            let p_i = self.add_particle(mass, zero_len);
            self.add_spring(p_from, p_i, zero_len, stiffness, damping, false);
            p_prev = p_i;
            t = t + 1;
            proof {
                assert(zero_len == (Length(Rat { num: 0, den: 1 })));
                let snew = SpringSpec {
                    p_0: p_from,
                    p_1: p_i,
                    natural_length: zero_len,
                    stiffness,
                    damping,
                    one_sided: false,
                };
                let pnew = ParticleSpec { mass, position: zero_len };
                assert(self.springs_view() == entry.springs_view().push(snew));
                assert(self.particles_view() == entry.particles_view().push(pnew));
                lemma_chain_step(
                    entry.springs_view(), self.springs_view(),
                    entry.particles_view(), self.particles_view(),
                    old(self).springs_view(), old(self).particles_view(),
                    old_plen, old_slen, p_0@, t as int, snew, pnew,
                );
            }
        }
        let ghost before_last = *self;
        proof {
            assert forall |i: int| 0 <= i < n - 1 implies
                (#[trigger] before_last.springs_view()[old_slen + i]).p_0@
                    == (if i == 0 { p_0@ } else { old_plen + i - 1 }) by {
                assert(before_last.springs_view()[old_slen + i] == self.springs_view()[old_slen + i]);
            }
            assert forall |i: int| 0 <= i < n - 1 implies
                (#[trigger] before_last.springs_view()[old_slen + i]).p_1@ == old_plen + i by {
                assert(before_last.springs_view()[old_slen + i] == self.springs_view()[old_slen + i]);
            }
            assert forall |i: int| 0 <= i < n - 1 implies
                (#[trigger] before_last.springs_view()[old_slen + i]).natural_length
                    == (Length(Rat { num: 0, den: 1 })) by {
                assert(before_last.springs_view()[old_slen + i] == self.springs_view()[old_slen + i]);
            }
            assert forall |i: int| 0 <= i < n - 1 implies
                (#[trigger] before_last.springs_view()[old_slen + i]).stiffness == stiffness by {
                assert(before_last.springs_view()[old_slen + i] == self.springs_view()[old_slen + i]);
            }
            assert forall |i: int| 0 <= i < n - 1 implies
                (#[trigger] before_last.springs_view()[old_slen + i]).damping == damping by {
                assert(before_last.springs_view()[old_slen + i] == self.springs_view()[old_slen + i]);
            }
            assert forall |i: int| 0 <= i < n - 1 implies
                (#[trigger] before_last.springs_view()[old_slen + i]).one_sided == false by {
                assert(before_last.springs_view()[old_slen + i] == self.springs_view()[old_slen + i]);
            }
            assert forall |i: int| 0 <= i < old_slen implies
                #[trigger] before_last.springs_view()[i] == old(self).springs_view()[i] by {
                assert(before_last.springs_view()[i] == self.springs_view()[i]);
            }
            assert forall |i: int| 0 <= i < n - 1 implies
                #[trigger] before_last.particles_view()[old_plen + i]
                    == (ParticleSpec { mass, position: Length(Rat { num: 0, den: 1 }) }) by {
                assert(before_last.particles_view()[old_plen + i]
                    == self.particles_view()[old_plen + i]);
            }
            assert forall |i: int| 0 <= i < old_plen implies
                #[trigger] before_last.particles_view()[i] == old(self).particles_view()[i] by {
                assert(before_last.particles_view()[i] == self.particles_view()[i]);
            }
        }
        let zero_len = Length(Rat::zero());
        self.add_spring(p_prev, p_n, zero_len, stiffness, damping, false);
        proof {
            assert(zero_len == (Length(Rat { num: 0, den: 1 })));
            let slast = SpringSpec {
                p_0: p_prev,
                p_1: p_n,
                natural_length: zero_len,
                stiffness,
                damping,
                one_sided: false,
            };
            let pnew = ParticleSpec { mass, position: zero_len };
            assert(self.springs_view() == before_last.springs_view().push(slast));
            assert(self.particles_view() == before_last.particles_view());
            lemma_chain_final(
                before_last.springs_view(), self.springs_view(),
                old(self).springs_view(),
                before_last.particles_view(), self.particles_view(),
                old(self).particles_view(),
                old_plen, old_slen, p_0@, p_n@, n as int, slast, pnew,
            );
        }
    }
}

/// Kinematic state of one particle. In a derivative produced by the
/// integrator's `f`, the `position` slot holds a velocity and the
/// `velocity` slot holds an acceleration: the type is reused as a plain
/// vector container.
#[derive(Clone, Copy, PartialEq, Eq, Structural, Debug)]
pub struct ParticleState {
    pub position: Length,
    pub velocity: Velocity,
}

/// The all-zero particle state.
pub open spec fn ps_zero() -> ParticleState {
    ParticleState {
        position: Length(Rat { num: 0, den: 1 }),
        velocity: Velocity(Rat { num: 0, den: 1 }),
    }
}

/// Both scalars of a particle state are well formed.
pub open spec fn ps_ok(p: ParticleState) -> bool {
    &&& rat_ok(p.position.0)
    &&& rat_ok(p.velocity.0)
}

impl ParticleState {
    /// The all-zero state: position 0, velocity 0.
    pub fn new() -> (r: ParticleState)
        ensures
            r == ps_zero(),
    {
        ParticleState { position: Length(Rat::zero()), velocity: Velocity(Rat::zero()) }
    }

    /// Elementwise sum.
    pub fn add(self, other: ParticleState) -> (r: ParticleState)
        requires
            ps_ok(self),
            ps_ok(other),
            q_fits(q_add(self.position.0@, other.position.0@)),
            q_fits(q_add(self.velocity.0@, other.velocity.0@)),
        ensures
            ps_ok(r),
            r.position.0@ == q_add(self.position.0@, other.position.0@),
            r.velocity.0@ == q_add(self.velocity.0@, other.velocity.0@),
    {
        ParticleState {
            position: self.position.add(other.position),
            velocity: self.velocity.add(other.velocity),
        }
    }

    /// Elementwise scaling by a bare rational.
    pub fn mul(self, s: Rat) -> (r: ParticleState)
        requires
            ps_ok(self),
            rat_ok(s),
            q_fits(q_mul(self.position.0@, s@)),
            q_fits(q_mul(self.velocity.0@, s@)),
        ensures
            ps_ok(r),
            r.position.0@ == q_mul(self.position.0@, s@),
            r.velocity.0@ == q_mul(self.velocity.0@, s@),
    {
        ParticleState {
            position: self.position.scale(s),
            velocity: self.velocity.scale(s),
        }
    }
}


proof fn lemma_update_entries<A>(pre: Seq<A>, post: Seq<A>, i: int, v: A)
    requires
        post == pre.update(i, v),
        0 <= i < pre.len(),
    ensures
        post.len() == pre.len(),
        post[i] == v,
        forall |j: int| 0 <= j < pre.len() && j != i ==> #[trigger] post[j] == pre[j],
{
    assert(pre.update(i, v)[i] == v);
    assert forall |j: int| 0 <= j < pre.len() && j != i implies #[trigger] post[j] == pre[j] by {
        assert(pre.update(i, v)[j] == pre[j]);
        assert(post[j] == pre.update(i, v)[j]);
    }
}

/// The strain of a spring in a given state:
/// `position(endpoint 1) - natural length - position(endpoint 0)`;
/// positive in tension, negative in compression.
pub open spec fn strain_of(s: SpringSpec, sts: Seq<ParticleState>) -> Qv {
    q_sub(q_sub(sts[s.p_1@].position.0@, s.natural_length.0@), sts[s.p_0@].position.0@)
}

/// The strain rate: `velocity(endpoint 1) - velocity(endpoint 0)`.
pub open spec fn strain_rate_of(s: SpringSpec, sts: Seq<ParticleState>) -> Qv {
    q_sub(sts[s.p_1@].velocity.0@, sts[s.p_0@].velocity.0@)
}

/// A one-sided spring under positive strain has gone slack.
pub open spec fn spring_slack(s: SpringSpec, sts: Seq<ParticleState>) -> bool {
    s.one_sided && strain_of(s, sts).n > 0
}

/// The magnitude of the force a taut spring exerts:
/// `stiffness * strain + damping * strain rate`.
pub open spec fn spring_force(s: SpringSpec, sts: Seq<ParticleState>) -> Qv {
    q_add(
        q_mul(s.stiffness.0@, strain_of(s, sts)),
        q_mul(s.damping.0@, strain_rate_of(s, sts)),
    )
}

/// The force a spring contributes to one of its endpoints: zero when
/// slack; otherwise the spring force to endpoint 1 and its negation to
/// endpoint 0 (Newton's third law).
pub open spec fn spring_force_on(s: SpringSpec, sts: Seq<ParticleState>, end: int) -> Qv {
    if spring_slack(s, sts) {
        q_zero()
    } else if end == 1 {
        spring_force(s, sts)
    } else {
        q_neg(spring_force(s, sts))
    }
}

/// The per-particle force accumulators after the first `i` springs have
/// been processed, starting from all zero.
pub open spec fn accum_forces(
    springs: Seq<SpringSpec>, sts: Seq<ParticleState>, i: int,
) -> Seq<Qv>
    decreases i,
{
    if i <= 0 {
        Seq::new(sts.len(), |j: int| q_zero())
    } else {
        let prev = accum_forces(springs, sts, i - 1);
        let s = springs[i - 1];
        if spring_slack(s, sts) {
            prev
        } else {
            let mid = prev.update(s.p_1@, q_add(prev[s.p_1@], spring_force_on(s, sts, 1)));
            mid.update(s.p_0@, q_add(mid[s.p_0@], spring_force_on(s, sts, 0)))
        }
    }
}

/// The accumulators with the earthed particles' entries forced to zero,
/// for the first `i` earth entries.
pub open spec fn clamp_earths(earths: Seq<Particle>, forces: Seq<Qv>, i: int) -> Seq<Qv>
    decreases i,
{
    if i <= 0 {
        forces
    } else {
        clamp_earths(earths, forces, i - 1).update(earths[i - 1]@, q_zero())
    }
}

/// The net force on each particle: every spring's contributions summed,
/// then every earthed particle's entry forced to zero.
pub open spec fn net_forces(instr: Instrument, sts: Seq<ParticleState>) -> Seq<Qv> {
    clamp_earths(
        instr.earths_view(),
        accum_forces(instr.springs_view(), sts, instr.springs_view().len() as int),
        instr.earths_view().len() as int,
    )
}

/// Every arithmetic step of processing one spring stays within machine
/// bounds, given the accumulators `acc` it starts from.
pub open spec fn spring_ops_fit(s: SpringSpec, sts: Seq<ParticleState>, acc: Seq<Qv>) -> bool {
    &&& q_fits(q_sub(sts[s.p_1@].position.0@, s.natural_length.0@))
    &&& q_fits(strain_of(s, sts))
    &&& q_fits(strain_rate_of(s, sts))
    &&& (!spring_slack(s, sts) ==> {
        let mid = acc.update(s.p_1@, q_add(acc[s.p_1@], spring_force_on(s, sts, 1)));
        &&& q_fits(q_mul(s.stiffness.0@, strain_of(s, sts)))
        &&& q_fits(q_mul(s.damping.0@, strain_rate_of(s, sts)))
        &&& q_fits(spring_force(s, sts))
        &&& q_fits(q_add(acc[s.p_1@], spring_force_on(s, sts, 1)))
        &&& q_fits(q_add(mid[s.p_0@], spring_force_on(s, sts, 0)))
    })
}

/// Every arithmetic step of the whole derivative computation stays
/// within machine bounds.
pub open spec fn deriv_fits(instr: Instrument, sts: Seq<ParticleState>) -> bool {
    &&& forall |i: int| 0 <= i < instr.springs_view().len()
        ==> spring_ops_fit(
            instr.springs_view()[i], sts,
            #[trigger] accum_forces(instr.springs_view(), sts, i),
        )
    &&& forall |j: int| 0 <= j < sts.len()
        ==> q_fits(q_div(
            #[trigger] net_forces(instr, sts)[j],
            instr.particles_view()[j].mass.0@,
        ))
}

pub proof fn lemma_accum_len(springs: Seq<SpringSpec>, sts: Seq<ParticleState>, i: int)
    requires
        forall |k: int| 0 <= k < i ==> 0 <= (#[trigger] springs[k]).p_0@ < sts.len()
            && 0 <= springs[k].p_1@ < sts.len(),
    ensures
        accum_forces(springs, sts, i).len() == sts.len(),
    decreases i,
{
    if i > 0 {
        lemma_accum_len(springs, sts, i - 1);
    }
}

pub proof fn lemma_clamp_len(earths: Seq<Particle>, forces: Seq<Qv>, i: int)
    requires
        forall |k: int| 0 <= k < i ==> 0 <= (#[trigger] earths[k])@ < forces.len(),
    ensures
        clamp_earths(earths, forces, i).len() == forces.len(),
    decreases i,
{
    if i > 0 {
        lemma_clamp_len(earths, forces, i - 1);
    }
}

/// The kinematic state of an instrument: one `ParticleState` per
/// particle, and a borrow of the instrument whose topology defines the
/// forces. The instrument must outlive the state and stay unchanged.
pub struct InstrumentState<'a> {
    particle_states: Vec<ParticleState>,
    instrument: &'a Instrument,
}

impl<'a> InstrumentState<'a> {
    /// The per-particle states, in particle order.
    pub closed spec fn states(&self) -> Seq<ParticleState> {
        self.particle_states@
    }

    /// The instrument this state belongs to.
    pub closed spec fn instr(&self) -> Instrument {
        *self.instrument
    }

    /// One entry per particle of a well-formed instrument, every scalar
    /// well formed.
    pub open spec fn wf(&self) -> bool {
        &&& self.instr().wf()
        &&& self.states().len() == self.instr().particles_view().len()
        &&& forall |i: int| 0 <= i < self.states().len() ==> ps_ok(#[trigger] self.states()[i])
    }

    /// The all-zero state of an instrument: every particle at position
    /// zero with velocity zero.
    pub fn new(instrument: &'a Instrument) -> (r: InstrumentState<'a>)
        requires
            instrument.wf(),
        ensures
            r.wf(),
            r.instr() == *instrument,
            r.states().len() == instrument.particles_view().len(),
            forall |i: int| 0 <= i < r.states().len() ==> #[trigger] r.states()[i] == ps_zero(),
    {
        let n = instrument.particle_count();
        let mut sts: Vec<ParticleState> = Vec::new();
        let mut i: usize = 0;
        while i < n
            invariant
                i <= n,
                sts@.len() == i,
                forall |j: int| 0 <= j < i ==> #[trigger] sts@[j] == ps_zero(),
            decreases n - i,
        {
            let ghost pre = sts@;
            let z = ParticleState::new();
            sts.push(z);
            proof {
                lemma_push_entries(pre, sts@, z);
            }
            i = i + 1;
        }
        InstrumentState { particle_states: sts, instrument }
    }

    /// The state of one particle, by handle.
    pub fn particle_state(&self, p: Particle) -> (r: ParticleState)
        requires
            0 <= p@ < self.states().len(),
        ensures
            r == self.states()[p@],
    {
        self.particle_states[p.0]
    }

    /// Models an impulsive strike: the hammer particle is placed at the
    /// target particle's current position and given the given velocity;
    /// every other particle is untouched.
    pub fn trigger_hammer(&mut self, hammer: Particle, target: Particle, velocity: Velocity)
        requires
            old(self).wf(),
            0 <= hammer@ < old(self).states().len(),
            0 <= target@ < old(self).states().len(),
            rat_ok(velocity.0),
        ensures
            final(self).wf(),
            final(self).instr() == old(self).instr(),
            final(self).states() == old(self).states().update(
                hammer@,
                (ParticleState { position: old(self).states()[target@].position, velocity }),
            ),
    {
        let position = self.particle_states[target.0].position;
        let ghost pre = self.particle_states@;
        self.particle_states.set(hammer.0, ParticleState { position, velocity });
        proof {
            lemma_update_entries(
                pre, self.particle_states@, hammer@,
                ParticleState { position, velocity },
            );
            assert forall |i: int| 0 <= i < self.states().len()
                implies ps_ok(#[trigger] self.states()[i]) by {
                if i != hammer@ {
                    assert(self.states()[i] == pre[i]);
                }
            }
        }
    }
}


proof fn lemma_forces_skip(
    f: Seq<Force>, springs: Seq<SpringSpec>, sts: Seq<ParticleState>, i: int,
)
    requires
        0 <= i < springs.len(),
        spring_slack(springs[i], sts),
        forall |k: int| 0 <= k < f.len()
            ==> (#[trigger] f[k]).0@ == accum_forces(springs, sts, i)[k],
    ensures
        forall |k: int| 0 <= k < f.len()
            ==> (#[trigger] f[k]).0@ == accum_forces(springs, sts, i + 1)[k],
{
    assert(accum_forces(springs, sts, i + 1) == accum_forces(springs, sts, i));
}

proof fn lemma_forces_step(
    f_pre: Seq<Force>, f_mid: Seq<Force>, f_post: Seq<Force>,
    springs: Seq<SpringSpec>, sts: Seq<ParticleState>, i: int,
    v1: Force, v0: Force,
)
    requires
        0 <= i < springs.len(),
        !spring_slack(springs[i], sts),
        0 <= springs[i].p_0@ < sts.len(),
        0 <= springs[i].p_1@ < sts.len(),
        f_pre.len() == sts.len(),
        accum_forces(springs, sts, i).len() == sts.len(),
        forall |k: int| 0 <= k < sts.len()
            ==> (#[trigger] f_pre[k]).0@ == accum_forces(springs, sts, i)[k],
        f_mid == f_pre.update(springs[i].p_1@, v1),
        v1.0@ == q_add(
            accum_forces(springs, sts, i)[springs[i].p_1@],
            spring_force_on(springs[i], sts, 1),
        ),
        f_post == f_mid.update(springs[i].p_0@, v0),
        v0.0@ == ({
            let acc = accum_forces(springs, sts, i);
            let mid = acc.update(
                springs[i].p_1@,
                q_add(acc[springs[i].p_1@], spring_force_on(springs[i], sts, 1)),
            );
            q_add(mid[springs[i].p_0@], spring_force_on(springs[i], sts, 0))
        }),
    ensures
        f_post.len() == sts.len(),
        forall |k: int| 0 <= k < sts.len()
            ==> (#[trigger] f_post[k]).0@ == accum_forces(springs, sts, i + 1)[k],
{
    let p1v = springs[i].p_1@;
    let p0v = springs[i].p_0@;
    let acc = accum_forces(springs, sts, i);
    let fo1 = spring_force_on(springs[i], sts, 1);
    let fo0 = spring_force_on(springs[i], sts, 0);
    let mid_spec = acc.update(p1v, q_add(acc[p1v], fo1));
    let post_spec = mid_spec.update(p0v, q_add(mid_spec[p0v], fo0));
    assert(accum_forces(springs, sts, i + 1) == post_spec);
    lemma_update_entries(acc, mid_spec, p1v, q_add(acc[p1v], fo1));
    lemma_update_entries(mid_spec, post_spec, p0v, q_add(mid_spec[p0v], fo0));
    lemma_update_entries(f_pre, f_mid, p1v, v1);
    lemma_update_entries(f_mid, f_post, p0v, v0);
    assert forall |k: int| 0 <= k < sts.len()
        implies (#[trigger] f_post[k]).0@ == accum_forces(springs, sts, i + 1)[k] by {
        assert(accum_forces(springs, sts, i + 1)[k] == post_spec[k]);
        if k == p0v {
            assert(f_post[k] == v0);
            assert(post_spec[k] == q_add(mid_spec[p0v], fo0));
        } else if k == p1v {
            assert(f_post[k] == f_mid[k]);
            assert(f_mid[k] == v1);
            assert(post_spec[k] == mid_spec[k]);
            assert(mid_spec[k] == q_add(acc[p1v], fo1));
        } else {
            assert(f_post[k] == f_mid[k]);
            assert(f_mid[k] == f_pre[k]);
            assert(post_spec[k] == mid_spec[k]);
            assert(mid_spec[k] == acc[k]);
        }
    }
}

proof fn lemma_clamp_step(
    f_pre: Seq<Force>, f_post: Seq<Force>,
    earths: Seq<Particle>, base: Seq<Qv>, e: int, z: Force,
)
    requires
        0 <= e < earths.len(),
        base.len() == f_pre.len(),
        forall |k: int| 0 <= k < earths.len() ==> 0 <= (#[trigger] earths[k])@ < base.len(),
        forall |k: int| 0 <= k < f_pre.len()
            ==> (#[trigger] f_pre[k]).0@ == clamp_earths(earths, base, e)[k],
        f_post == f_pre.update(earths[e]@, z),
        z.0@ == q_zero(),
    ensures
        f_post.len() == f_pre.len(),
        forall |k: int| 0 <= k < f_pre.len()
            ==> (#[trigger] f_post[k]).0@ == clamp_earths(earths, base, e + 1)[k],
{
    let c0 = clamp_earths(earths, base, e);
    let c1 = clamp_earths(earths, base, e + 1);
    assert(c1 == c0.update(earths[e]@, q_zero()));
    lemma_clamp_len(earths, base, e);
    lemma_update_entries(c0, c1, earths[e]@, q_zero());
    lemma_update_entries(f_pre, f_post, earths[e]@, z);
    assert forall |k: int| 0 <= k < f_pre.len()
        implies (#[trigger] f_post[k]).0@ == c1[k] by {
        if k == earths[e]@ {
            assert(f_post[k] == z);
            assert(c1[k] == q_zero());
        } else {
            assert(f_post[k] == f_pre[k]);
            assert(c1[k] == c0[k]);
        }
    }
}

impl<'a> State for InstrumentState<'a> {
    /// Both states are well formed, sized alike, and every elementwise
    /// sum fits.
    open spec fn add_req(&self, other: &Self) -> bool {
        &&& self.wf()
        &&& other.wf()
        &&& self.states().len() == other.states().len()
        &&& forall |i: int| 0 <= i < self.states().len() ==> {
            &&& q_fits(q_add(
                (#[trigger] self.states()[i]).position.0@, other.states()[i].position.0@,
            ))
            &&& q_fits(q_add(self.states()[i].velocity.0@, other.states()[i].velocity.0@))
        }
    }

    /// The result is the elementwise exact sum, over `self`'s instrument.
    open spec fn add_ens(&self, other: &Self, r: Self) -> bool {
        &&& r.wf()
        &&& r.instr() == self.instr()
        &&& r.states().len() == self.states().len()
        &&& forall |i: int| 0 <= i < self.states().len() ==> {
            &&& (#[trigger] r.states()[i]).position.0@
                == q_add(self.states()[i].position.0@, other.states()[i].position.0@)
            &&& r.states()[i].velocity.0@
                == q_add(self.states()[i].velocity.0@, other.states()[i].velocity.0@)
        }
    }

    /// The state is well formed and every elementwise product fits.
    open spec fn mul_req(&self, s: Rat) -> bool {
        &&& self.wf()
        &&& rat_ok(s)
        &&& forall |i: int| 0 <= i < self.states().len() ==> {
            &&& q_fits(q_mul((#[trigger] self.states()[i]).position.0@, s@))
            &&& q_fits(q_mul(self.states()[i].velocity.0@, s@))
        }
    }

    /// The result is the elementwise exact scaling.
    open spec fn mul_ens(&self, s: Rat, r: Self) -> bool {
        &&& r.wf()
        &&& r.instr() == self.instr()
        &&& r.states().len() == self.states().len()
        &&& forall |i: int| 0 <= i < self.states().len() ==> {
            &&& (#[trigger] r.states()[i]).position.0@ == q_mul(self.states()[i].position.0@, s@)
            &&& r.states()[i].velocity.0@ == q_mul(self.states()[i].velocity.0@, s@)
        }
    }

    /// The state is well formed and every force computation fits.
    open spec fn f_req(&self, t: Rat) -> bool {
        &&& self.wf()
        &&& rat_ok(t)
        &&& deriv_fits(self.instr(), self.states())
    }

    /// The result is the exact time derivative: each particle's
    /// `position` slot holds its current velocity, and its `velocity`
    /// slot holds the net spring force divided by its mass.
    open spec fn f_ens(&self, t: Rat, r: Self) -> bool {
        &&& r.wf()
        &&& r.instr() == self.instr()
        &&& r.states().len() == self.states().len()
        &&& forall |i: int| 0 <= i < self.states().len() ==> {
            &&& (#[trigger] r.states()[i]).position.0@ == self.states()[i].velocity.0@
            &&& r.states()[i].velocity.0@ == q_div(
                net_forces(self.instr(), self.states())[i],
                self.instr().particles_view()[i].mass.0@,
            )
        }
    }

    fn add(&self, other: &Self) -> (r: Self) {
        let n = self.particle_states.len();
        let mut out: Vec<ParticleState> = Vec::new();
        let mut i: usize = 0;
        while i < n
            invariant
                i <= n,
                n == self.states().len(),
                self.add_req(other),
                out@.len() == i,
                forall |k: int| 0 <= k < i ==> {
                    &&& ps_ok(#[trigger] out@[k])
                    &&& out@[k].position.0@
                        == q_add(self.states()[k].position.0@, other.states()[k].position.0@)
                    &&& out@[k].velocity.0@
                        == q_add(self.states()[k].velocity.0@, other.states()[k].velocity.0@)
                },
            decreases n - i,
        {
            let ghost pre = out@;
            let v = self.particle_states[i].add(other.particle_states[i]);
            out.push(v);
            proof {
                lemma_push_entries(pre, out@, v);
            }
            i = i + 1;
        }
        InstrumentState { particle_states: out, instrument: self.instrument }
    }

    fn mul(&self, s: &Rat) -> (r: Self) {
        let n = self.particle_states.len();
        let mut out: Vec<ParticleState> = Vec::new();
        let mut i: usize = 0;
        while i < n
            invariant
                i <= n,
                n == self.states().len(),
                self.mul_req(*s),
                out@.len() == i,
                forall |k: int| 0 <= k < i ==> {
                    &&& ps_ok(#[trigger] out@[k])
                    &&& out@[k].position.0@ == q_mul(self.states()[k].position.0@, s@)
                    &&& out@[k].velocity.0@ == q_mul(self.states()[k].velocity.0@, s@)
                },
            decreases n - i,
        {
            let ghost pre = out@;
            let v = self.particle_states[i].mul(*s);
            out.push(v);
            proof {
                lemma_push_entries(pre, out@, v);
            }
            i = i + 1;
        }
        InstrumentState { particle_states: out, instrument: self.instrument }
    }

    fn f(&self, t: &Rat) -> (r: Self) {
        let ghost sts = self.states();
        let ghost instr = self.instr();
        let ghost springs = self.instr().springs_view();
        let n = self.particle_states.len();

        // start every particle's force accumulator at zero
        let mut forces: Vec<Force> = Vec::new();
        let mut j: usize = 0;
        while j < n
            invariant
                j <= n,
                forces@.len() == j,
                forall |k: int| 0 <= k < j ==> {
                    &&& rat_ok((#[trigger] forces@[k]).0)
                    &&& forces@[k].0@ == q_zero()
                },
            decreases n - j,
        {
            let ghost pre = forces@;
            let z = Force(Rat::zero());
            forces.push(z);
            proof {
                lemma_push_entries(pre, forces@, z);
            }
            j = j + 1;
        }
        proof {
            assert forall |k: int| 0 <= k < n
                implies (#[trigger] forces@[k]).0@ == accum_forces(springs, sts, 0)[k] by {
                assert(accum_forces(springs, sts, 0)[k] == q_zero());
            }
        }

        // accumulate each spring's contributions
        let m = self.instrument.springs.len();
        let mut si: usize = 0;
        while si < m
            invariant
                si <= m,
                self.wf(),
                rat_ok(*t),
                deriv_fits(instr, sts),
                sts == self.states(),
                instr == self.instr(),
                springs == instr.springs_view(),
                m == springs.len(),
                n == sts.len(),
                forces@.len() == n,
                forall |k: int| 0 <= k < n ==> {
                    &&& rat_ok((#[trigger] forces@[k]).0)
                    &&& forces@[k].0@ == accum_forces(springs, sts, si as int)[k]
                },
            decreases m - si,
        {
            let s = self.instrument.springs[si];
            proof {
                assert(springs[si as int] == s);
                assert(s.wf(instr.particles_view().len() as int));
                assert(spring_ops_fit(s, sts, accum_forces(springs, sts, si as int)));
                assert forall |k: int| 0 <= k < si as int + 1
                    implies 0 <= (#[trigger] springs[k]).p_0@ < sts.len()
                        && 0 <= springs[k].p_1@ < sts.len() by {
                    assert(springs[k].wf(instr.particles_view().len() as int));
                }
                lemma_accum_len(springs, sts, si as int);
            }
            let p1 = s.p_1.0;
            let p0 = s.p_0.0;
            let p1s = self.particle_states[p1];
            let p0s = self.particle_states[p0];
            let e1 = p1s.position.0.sub(s.natural_length.0);
            let strain = e1.sub(p0s.position.0);
            let rate = p1s.velocity.0.sub(p0s.velocity.0);
            proof {
                assert(p1s == sts[s.p_1@]);
                assert(p0s == sts[s.p_0@]);
                assert(strain@ == strain_of(s, sts));
                assert(rate@ == strain_rate_of(s, sts));
            }
            if s.one_sided && strain.is_pos() {
                proof {
                    assert(spring_slack(s, sts));
                    lemma_forces_skip(forces@, springs, sts, si as int);
                }
            } else {
                proof {
                    assert(!spring_slack(s, sts));
                }
                let fk = s.stiffness.0.mul(strain);
                let fc = s.damping.0.mul(rate);
                let force = fk.add(fc);
                proof {
                    assert(force@ == spring_force(s, sts));
                    assert(spring_force_on(s, sts, 1) == spring_force(s, sts));
                }
                let ghost f_pre = forces@;
                let cur1 = forces[p1];
                let v1 = Force(cur1.0.add(force));
                forces.set(p1, v1);
                let ghost f_mid = forces@;
                proof {
                    lemma_update_entries(f_pre, f_mid, s.p_1@, v1);
                    let acc = accum_forces(springs, sts, si as int);
                    let mid_spec = acc.update(
                        s.p_1@, q_add(acc[s.p_1@], spring_force_on(s, sts, 1)),
                    );
                    lemma_update_entries(acc, mid_spec, s.p_1@,
                        q_add(acc[s.p_1@], spring_force_on(s, sts, 1)));
                    assert(f_mid[s.p_0@].0@ == mid_spec[s.p_0@]);
                }
                let cur0 = forces[p0];
                let nforce = force.neg();
                proof {
                    assert(nforce@ == spring_force_on(s, sts, 0));
                }
                let v0 = Force(cur0.0.add(nforce));
                forces.set(p0, v0);
                proof {
                    lemma_forces_step(
                        f_pre, f_mid, forces@, springs, sts, si as int, v1, v0,
                    );
                }
            }
            si = si + 1;
        }

        // zero the accumulators of the earthed particles
        let ghost base = accum_forces(springs, sts, springs.len() as int);
        let ghost earths = instr.earths_view();
        proof {
            assert forall |k: int| 0 <= k < springs.len()
                implies 0 <= (#[trigger] springs[k]).p_0@ < sts.len()
                    && 0 <= springs[k].p_1@ < sts.len() by {
                assert(springs[k].wf(instr.particles_view().len() as int));
            }
            lemma_accum_len(springs, sts, springs.len() as int);
        }
        let me = self.instrument.earths.len();
        let mut e: usize = 0;
        while e < me
            invariant
                e <= me,
                self.wf(),
                rat_ok(*t),
                deriv_fits(instr, sts),
                sts == self.states(),
                instr == self.instr(),
                springs == instr.springs_view(),
                earths == instr.earths_view(),
                base == accum_forces(springs, sts, springs.len() as int),
                me == earths.len(),
                n == sts.len(),
                base.len() == n,
                forces@.len() == n,
                forall |k: int| 0 <= k < n ==> {
                    &&& rat_ok((#[trigger] forces@[k]).0)
                    &&& forces@[k].0@ == clamp_earths(earths, base, e as int)[k]
                },
            decreases me - e,
        {
            let idx = self.instrument.earths[e].0;
            let ghost f_pre = forces@;
            let z = Force(Rat::zero());
            proof {
                assert(0 <= earths[e as int]@ < n);
            }
            forces.set(idx, z);
            proof {
                assert forall |k: int| 0 <= k < earths.len()
                    implies 0 <= (#[trigger] earths[k])@ < base.len() by {
                }
                lemma_clamp_step(f_pre, forces@, earths, base, e as int, z);
            }
            e = e + 1;
        }
        proof {
            assert forall |k: int| 0 <= k < n
                implies (#[trigger] forces@[k]).0@ == net_forces(instr, sts)[k] by {
                assert(clamp_earths(earths, base, me as int)[k] == net_forces(instr, sts)[k]);
            }
        }

        // package the derivative: velocity in the position slot,
        // acceleration in the velocity slot
        let mut out: Vec<ParticleState> = Vec::new();
        let mut i: usize = 0;
        while i < n
            invariant
                i <= n,
                self.wf(),
                deriv_fits(instr, sts),
                sts == self.states(),
                instr == self.instr(),
                n == sts.len(),
                forces@.len() == n,
                forall |k: int| 0 <= k < n ==> {
                    &&& rat_ok((#[trigger] forces@[k]).0)
                    &&& forces@[k].0@ == net_forces(instr, sts)[k]
                },
                out@.len() == i,
                forall |k: int| 0 <= k < i ==> {
                    &&& ps_ok(#[trigger] out@[k])
                    &&& out@[k].position.0@ == sts[k].velocity.0@
                    &&& out@[k].velocity.0@ == q_div(
                        net_forces(instr, sts)[k], instr.particles_view()[k].mass.0@,
                    )
                },
            decreases n - i,
        {
            let mass = self.instrument.particles[i].mass;
            proof {
                assert(instr.particles_view()[i as int].wf());
                assert(q_fits(q_div(net_forces(instr, sts)[i as int], mass.0@)));
            }
            let a = forces[i].div(mass);
            let ghost pre = out@;
            let v = ParticleState {
                position: Length(self.particle_states[i].velocity.0),
                velocity: Velocity(a.0),
            };
            out.push(v);
            proof {
                lemma_push_entries(pre, out@, v);
            }
            i = i + 1;
        }
        InstrumentState { particle_states: out, instrument: self.instrument }
    }
}

} // verus!
