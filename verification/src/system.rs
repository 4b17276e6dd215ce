//! The particle system: its constants, its state, and the tick that
//! advances every particle by one time step.

use vstd::prelude::*;
use crate::boundary::{resolved_against, ContainerBoundary, Plane};
use crate::particle::Particle;
use crate::vector::Vec3;

verus! {

/// The distance between neighbours on the initial grid.
pub const GRID_SPACING: i64 = 3_000_000;

/// The constants of the simulation, each counted in millionths.
#[derive(Clone, Copy, Debug, PartialEq, Eq, Structural)]
pub struct Config {
    /// The downward acceleration.
    pub gravity: i64,
    /// The share of twice the normal velocity that a bounce takes away.
    pub restitution: i64,
    /// The magnitude below which a velocity component is put to rest.
    pub sleep_threshold: i64,
    /// The multiple of the penetration depth by which a bounce moves the
    /// particle back along the normal.
    pub correction_factor: i64,
}

/// Gravity 9.81, restitution 0.8, sleep threshold 0.1 and a correction
/// factor of 2, which mirrors a particle that left the container back
/// into it.
pub open spec fn default_config() -> Config {
    Config {
        gravity: 9_810_000,
        restitution: 800_000,
        sleep_threshold: 100_000,
        correction_factor: 2_000_000,
    }
}

impl Default for Config {
    fn default() -> (config: Config)
        ensures
            config == default_config(),
    {
        Config {
            gravity: 9_810_000,
            restitution: 800_000,
            sleep_threshold: 100_000,
            correction_factor: 2_000_000,
        }
    }
}

/// One particle after one tick of length `dt`: moved along the velocity it
/// had before the tick, then pulled by gravity, then thrown back by every
/// face it has left, then put to rest where it is slow.
pub open spec fn spec_step(p: Particle, planes: Seq<Plane>, config: Config, dt: i64) -> Particle {
    resolved_against(
        planes,
        p.spec_integrated(dt).spec_accelerated(config.gravity, dt),
        config.restitution,
        config.correction_factor,
    ).spec_settled(config.sleep_threshold)
}

/// Advances one particle by one tick of length `dt`.
pub fn step(p: Particle, boundary: &ContainerBoundary, config: &Config, dt: i64) -> (q: Particle)
    ensures
        q == spec_step(p, boundary@, *config, dt),
        q.is_settled(config.sleep_threshold),
{
    let moved = p.integrated(dt).accelerated(config.gravity, dt);
    let inside = boundary.resolve(moved, config.restitution, config.correction_factor);
    inside.settled(config.sleep_threshold)
}

/// The particle at place `index` of the initial grid of `per_row` columns:
/// on the plane `y = 0`, columns along `x` and rows along `z`, the grid
/// shifted by half its width times the spacing towards the negative side.
pub open spec fn grid_particle(index: int, per_row: int, velocity: Vec3) -> Particle {
    Particle {
        position: Vec3 {
            x: ((index % per_row) * GRID_SPACING - per_row * (GRID_SPACING / 2)) as i64,
            y: 0,
            z: ((index / per_row) * GRID_SPACING - per_row * (GRID_SPACING / 2)) as i64,
        },
        velocity,
    }
}

/// The initial grid: `per_row * per_row` particles, row by row, all with
/// the given velocity.
pub open spec fn grid(per_row: int, velocity: Vec3) -> Seq<Particle> {
    Seq::new((per_row * per_row) as nat, |index: int| grid_particle(index, per_row, velocity))
}

/// Lays the particles out on the initial grid.
pub fn grid_particles(per_row: u32, velocity: Vec3) -> (particles: Vec<Particle>)
    requires
        per_row * per_row <= u32::MAX,
    ensures
        particles@ == grid(per_row as int, velocity),
{
    let count: u32 = per_row * per_row;
    let mut particles: Vec<Particle> = Vec::new();
    let mut index: u32 = 0;
    while index < count
        invariant
            index <= count,
            count == per_row * per_row,
            particles@.len() == index,
            forall|i: int|
                0 <= i < index ==> particles@[i] == grid_particle(i, per_row as int, velocity),
        decreases count - index,
    {
        assert(per_row > 0) by (nonlinear_arith)
            requires
                index < per_row * per_row,
        ;
        let column: u32 = index % per_row;
        let row: u32 = index / per_row;
        let half: i64 = GRID_SPACING / 2;
        assert(half == 1_500_000);
        let shift: i64 = (per_row as i64) * half;
        let position = Vec3 {
            x: (column as i64) * GRID_SPACING - shift,
            y: 0,
            z: (row as i64) * GRID_SPACING - shift,
        };
        particles.push(Particle { position, velocity });
        index += 1;
    }
    assert(particles@ =~= grid(per_row as int, velocity));
    particles
}

/// What a particle system is made of: the particles in their order, the
/// faces of the container in theirs, and the constants.
pub struct SystemState {
    pub particles: Seq<Particle>,
    pub planes: Seq<Plane>,
    pub config: Config,
}

impl SystemState {
    /// The state one tick of length `dt` later: every particle advanced by
    /// itself, the container and the constants as before.
    pub open spec fn stepped(self, dt: i64) -> SystemState {
        SystemState {
            particles: Seq::new(
                self.particles.len(),
                |i: int| spec_step(self.particles[i], self.planes, self.config, dt),
            ),
            planes: self.planes,
            config: self.config,
        }
    }

    /// The state after one tick for each element of `dts`, first to last.
    pub open spec fn ran(self, dts: Seq<i64>) -> SystemState
        decreases dts.len(),
    {
        if dts.len() == 0 {
            self
        } else {
            self.ran(dts.drop_last()).stepped(dts.last())
        }
    }

    /// Whether every particle obeys the sleep rule.
    pub open spec fn is_settled(self) -> bool {
        forall|i: int|
            0 <= i < self.particles.len() ==> (#[trigger] self.particles[i]).is_settled(
                self.config.sleep_threshold,
            )
    }
}

/// The particles, the container that bounds them and the constants that
/// govern them.
pub struct ParticleSystem {
    particles: Vec<Particle>,
    boundary: ContainerBoundary,
    config: Config,
}

impl View for ParticleSystem {
    type V = SystemState;

    closed spec fn view(&self) -> SystemState {
        SystemState { particles: self.particles@, planes: self.boundary@, config: self.config }
    }
}

impl ParticleSystem {
    /// The system of the given particles in the given container.
    pub fn new(particles: Vec<Particle>, boundary: ContainerBoundary, config: Config) -> (system:
        ParticleSystem)
        ensures
            system@ == (SystemState { particles: particles@, planes: boundary@, config }),
    {
        ParticleSystem { particles, boundary, config }
    }

    /// The particles as they stand, in their order.
    pub fn particles(&self) -> (particles: &Vec<Particle>)
        ensures
            particles@ == self@.particles,
    {
        &self.particles
    }

    /// The container.
    pub fn boundary(&self) -> (boundary: &ContainerBoundary)
        ensures
            boundary@ == self@.planes,
    {
        &self.boundary
    }

    /// The constants.
    pub fn config(&self) -> (config: Config)
        ensures
            config == self@.config,
    {
        self.config
    }

    /// A copy of the whole particle array, for whoever displays it.
    pub fn snapshot(&self) -> (copy: Vec<Particle>)
        ensures
            copy@ == self@.particles,
    {
        let mut copy: Vec<Particle> = Vec::new();
        let n = self.particles.len();
        let mut i: usize = 0;
        while i < n
            invariant
                i <= n,
                n == self.particles@.len(),
                copy@ == self.particles@.take(i as int),
            decreases n - i,
        {
            copy.push(self.particles[i]);
            assert(copy@ =~= self.particles@.take(i + 1));
            i += 1;
        }
        assert(self.particles@.take(n as int) =~= self.particles@);
        copy
    }

    /// Advances every particle by one tick of length `dt`.
    pub fn update(&mut self, dt: i64)
        ensures
            final(self)@ == old(self)@.stepped(dt),
            final(self)@.is_settled(),
    {
        let n = self.particles.len();
        let mut i: usize = 0;
        while i < n
            invariant
                i <= n,
                n == old(self).particles@.len(),
                self.particles@.len() == n,
                self.boundary == old(self).boundary,
                self.config == old(self).config,
                forall|j: int|
                    0 <= j < i ==> self.particles@[j] == spec_step(
                        old(self).particles@[j],
                        self.boundary@,
                        self.config,
                        dt,
                    ),
                forall|j: int|
                    0 <= j < i ==> (#[trigger] self.particles@[j]).is_settled(
                        self.config.sleep_threshold,
                    ),
                forall|j: int| i <= j < n ==> self.particles@[j] == old(self).particles@[j],
            decreases n - i,
        {
            let p = self.particles[i];
            let q = step(p, &self.boundary, &self.config, dt);
            self.particles.set(i, q);
            i += 1;
        }
        assert(self@.particles =~= old(self)@.stepped(dt).particles);
    }

    /// Advances every particle by one tick of length `dt` and hands out
    /// the whole array as it then stands.
    pub fn tick(&mut self, dt: i64) -> (published: Vec<Particle>)
        ensures
            final(self)@ == old(self)@.stepped(dt),
            final(self)@.is_settled(),
            published@ == final(self)@.particles,
    {
        self.update(dt);
        self.snapshot()
    }

    /// Advances the system by one tick for each element of `dts`, first
    /// to last.
    pub fn run(&mut self, dts: &Vec<i64>)
        ensures
            final(self)@ == old(self)@.ran(dts@),
    {
        let n = dts.len();
        let mut k: usize = 0;
        assert(dts@.take(0) =~= Seq::<i64>::empty());
        while k < n
            invariant
                k <= n,
                n == dts@.len(),
                self@ == old(self)@.ran(dts@.take(k as int)),
            decreases n - k,
        {
            assert(dts@.take(k + 1).drop_last() =~= dts@.take(k as int));
            self.update(dts[k]);
            k += 1;
        }
        assert(dts@.take(n as int) =~= dts@);
    }
}

} // verus!
