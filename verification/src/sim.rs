//! The simulation: a population of particles under fixed constants.
use crate::config::Config;
use crate::scalar::Scalar;
use crate::integrator::contained;
use crate::jitter::{all_jitter, draw_many};
use crate::layout::{extend_with_block, initialised, placed, placed_spec};
use crate::particle::Particle;
use crate::stages::{
    accumulate, estimate, estimated, forced, integrate_all, integrated, stepped,
};
use crate::theorems::{lemma_density_positive, lemma_step_contained, lemma_step_density_positive};
use crate::vec2::Vec2;
use vstd::prelude::*;

verus! {

/// A population of particles and the constants that govern it. The order of
/// the particles never changes; their number changes only when the
/// population is cleared or initialised.
pub struct Sim {
    config: Config,
    particles: Vec<Particle>,
}

impl View for Sim {
    type V = Seq<Particle>;

    closed spec fn view(&self) -> Seq<Particle> {
        self.particles@
    }
}

impl Sim {
    #[verifier::type_invariant]
    spec fn well_formed(self) -> bool {
        self.config.valid()
    }

    /// The constants of the simulation.
    pub closed spec fn constants(self) -> Config {
        self.config
    }

    /// An empty simulation under the standard constants.
    pub fn new() -> (r: Sim)
        ensures
            r@ == Seq::<Particle>::empty(),
            r.constants() == Config::standard(),
    {
        Sim { config: Config::standard(), particles: Vec::new() }
    }

    /// An empty simulation under the given constants, if they are valid.
    pub fn with_config(config: Config) -> (r: Option<Sim>)
        ensures
            r.is_some() <==> config.valid(),
            r matches Some(s) ==> s@ == Seq::<Particle>::empty() && s.constants() == config,
    {
        if config.is_valid() {
            Some(Sim { config, particles: Vec::new() })
        } else {
            None
        }
    }

    /// A simulation of the given particles under the given constants, if they are valid.
    pub fn with_particles(config: Config, particles: Vec<Particle>) -> (r: Option<Sim>)
        ensures
            r.is_some() <==> config.valid(),
            r matches Some(s) ==> s@ == particles@ && s.constants() == config,
    {
        if config.is_valid() {
            Some(Sim { config, particles })
        } else {
            None
        }
    }

    /// The constants, which are valid.
    pub fn config(&self) -> (r: Config)
        ensures
            r == self.constants(),
            r.valid(),
    {
        proof {
            use_type_invariant(self);
        }
        self.config
    }

    /// Number of particles.
    pub fn len(&self) -> (r: usize)
        ensures
            r == self@.len(),
    {
        self.particles.len()
    }

    /// The particles, in their order.
    pub fn particles(&self) -> (r: &Vec<Particle>)
        ensures
            r@ == self@,
    {
        &self.particles
    }

    /// The positions of the particles, in their order.
    pub fn positions(&self) -> (r: Vec<Vec2>)
        ensures
            r@.len() == self@.len(),
            forall|i: int| 0 <= i < r@.len() ==> #[trigger] r@[i] == self@[i].x,
    {
        let n: usize = self.particles.len();
        let mut out: Vec<Vec2> = Vec::new();
        let mut i: usize = 0;
        while i < n
            invariant
                i <= n,
                n == self.particles.len(),
                out@.len() == i,
                forall|t: int| 0 <= t < i ==> #[trigger] out@[t] == self.particles@[t].x,
            decreases n - i,
        {
            out.push(self.particles[i].x);
            i += 1;
        }
        out
    }

    /// Removes all particles.
    pub fn clear(&mut self)
        ensures
            final(self)@ == Seq::<Particle>::empty(),
            final(self).constants() == old(self).constants(),
    {
        proof {
            use_type_invariant(&*self);
        }
        self.particles = Vec::new();
    }

    /// Adds the block's particles, as far as the cap leaves room, taking the
    /// jitter of the `k`-th added particle from `jitter` and zero where
    /// `jitter` has no `k`-th element.
    pub fn init_with_jitter(&mut self, jitter: &Vec<Scalar>)
        ensures
            final(self)@ == initialised(old(self).constants(), old(self)@, jitter@),
            final(self).constants() == old(self).constants(),
    {
        proof {
            use_type_invariant(&*self);
        }
        self.particles = extend_with_block(&self.config, &self.particles, jitter);
    }

    /// Adds the block's particles, as far as the cap leaves room, each with a
    /// random jitter between zero and one.
    pub fn init(&mut self)
        ensures
            exists|jitter: Seq<Scalar>|
                all_jitter(jitter) && jitter.len() == placed_spec(
                    old(self).constants(),
                    old(self)@.len() as int,
                ) && final(self)@ == initialised(old(self).constants(), old(self)@, jitter),
            final(self).constants() == old(self).constants(),
    {
        proof {
            use_type_invariant(&*self);
        }
        let n: u64 = placed(&self.config, self.particles.len());
        let jitter: Vec<Scalar> = draw_many(n);
        self.init_with_jitter(&jitter);
        assert(all_jitter(jitter@) && jitter@.len() == placed_spec(
            old(self).constants(),
            old(self)@.len() as int,
        ) && self@ == initialised(old(self).constants(), old(self)@, jitter@));
    }

    /// Estimates every particle's density and pressure from the positions
    /// of all. Every density comes out positive.
    pub fn compute_density_pressure(&mut self)
        ensures
            final(self)@ == estimated(old(self).constants(), old(self)@),
            final(self).constants() == old(self).constants(),
            final(self)@.len() == old(self)@.len(),
            forall|i: int| 0 <= i < final(self)@.len() ==> (#[trigger] final(self)@[i]).rho.m > 0,
    {
        proof {
            use_type_invariant(&*self);
        }
        self.particles = estimate(&self.config, &self.particles);
        proof {
            assert forall|i: int| 0 <= i < self@.len() implies (#[trigger] self@[i]).rho.m
                > 0 by {
                lemma_density_positive(self.config, old(self)@, i);
            }
        }
    }

    /// Accumulates the net force on every particle from the state of all.
    pub fn compute_forces(&mut self)
        ensures
            final(self)@ == forced(old(self).constants(), old(self)@),
            final(self).constants() == old(self).constants(),
    {
        proof {
            use_type_invariant(&*self);
        }
        self.particles = accumulate(&self.config, &self.particles);
    }

    /// Advances every particle by one timestep and reflects it at the
    /// edges. Every particle ends inside the domain, a kernel radius or more
    /// from each edge.
    pub fn integrate(&mut self)
        ensures
            final(self)@ == integrated(old(self).constants(), old(self)@),
            final(self).constants() == old(self).constants(),
            final(self)@.len() == old(self)@.len(),
            forall|i: int|
                0 <= i < final(self)@.len() ==> contained(
                    old(self).constants(),
                    (#[trigger] final(self)@[i]).x,
                ),
    {
        proof {
            use_type_invariant(&*self);
        }
        self.particles = integrate_all(&self.config, &self.particles);
        proof {
            assert forall|i: int| 0 <= i < self@.len() implies contained(
                self.config,
                (#[trigger] self@[i]).x,
            ) by {
                lemma_step_contained(self.config, old(self)@, i);
            }
        }
    }

    /// One simulation step: density and pressure, then forces, then
    /// integration. The population keeps its size and order; every particle
    /// ends inside the domain with a positive density.
    pub fn step(&mut self)
        ensures
            final(self)@ == stepped(old(self).constants(), old(self)@),
            final(self).constants() == old(self).constants(),
            final(self)@.len() == old(self)@.len(),
            forall|i: int|
                0 <= i < final(self)@.len() ==> contained(
                    old(self).constants(),
                    (#[trigger] final(self)@[i]).x,
                ) && final(self)@[i].rho.m > 0,
    {
        proof {
            use_type_invariant(&*self);
        }
        self.compute_density_pressure();
        self.compute_forces();
        self.integrate();
        proof {
            assert forall|i: int| 0 <= i < self@.len() implies contained(
                self.config,
                (#[trigger] self@[i]).x,
            ) && self@[i].rho.m > 0 by {
                lemma_step_contained(self.config, old(self)@, i);
                lemma_step_density_positive(self.config, old(self)@, i);
            }
        }
    }
}

} // verus!
