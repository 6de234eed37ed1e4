//! The physical constants of a simulation and the kernel coefficients
//! derived from them.
use crate::algebra::{lemma_div_value, lemma_from_int_value, lemma_mul_value, lemma_sum_value};
use crate::scalar::{less, Scalar};
use vstd::arithmetic::power2::{lemma2_to64, lemma2_to64_rest};
use crate::vec2::Vec2;
use vstd::prelude::*;

verus! {

/// The constants of a simulation, fixed when it is created.
#[derive(Clone, Copy, Debug, PartialEq, Eq, Structural)]
pub struct Config {
    /// Kernel radius; also the margin kept between particles and the domain's edges.
    pub h: Scalar,
    /// Mass of every particle.
    pub mass: Scalar,
    /// Stiffness of the equation of state.
    pub gas_constant: Scalar,
    /// Density at which the pressure is zero.
    pub rest_density: Scalar,
    /// Viscosity constant.
    pub viscosity: Scalar,
    /// External acceleration.
    pub gravity: Vec2,
    /// Integration timestep.
    pub dt: Scalar,
    /// Factor applied to a velocity component when its axis hits an edge.
    pub bound_damping: Scalar,
    /// Most particles the population may hold; none are placed where it is not positive.
    pub particle_cap: i64,
    /// Extent of the domain along x.
    pub width: Scalar,
    /// Extent of the domain along y.
    pub height: Scalar,
}

/// The kernel coefficients that depend on the constants alone.
#[derive(Clone, Copy, Debug, PartialEq, Eq, Structural)]
pub struct Coefficients {
    /// Square of the kernel radius.
    pub hsq: Scalar,
    /// `mass * 4 / (pi * h^2)`: the density a particle contributes at distance zero.
    pub poly6: Scalar,
    /// `-10 / (pi * h^2)`: the pressure-gradient kernel at distance zero.
    pub spiky: Scalar,
    /// `viscosity * mass * 40 / (pi * h^4)`: the viscosity kernel at distance zero.
    pub visc: Scalar,
}

impl Config {
    /// Square of the kernel radius.
    pub open spec fn hsq_spec(self) -> Scalar {
        self.h.mul(self.h)
    }

    /// The coefficients derived from the constants.
    pub open spec fn coefficients_spec(self) -> Coefficients {
        Coefficients {
            hsq: self.hsq(),
            poly6: self.mass.mul(Scalar::from_int(4)).div(Scalar::pi()).div(self.hsq()),
            spiky: Scalar::from_int(10).div(Scalar::pi()).div(self.hsq()).neg(),
            visc: self.viscosity.mul(self.mass).mul(Scalar::from_int(40)).div(Scalar::pi()).div(
                self.hsq(),
            ).div(self.hsq()),
        }
    }

    /// What a simulation needs of its constants: a positive kernel radius
    /// whose square is positive, a positive contribution of each particle to
    /// its own density, a damping factor strictly between minus one and zero,
    /// and a domain that holds the margins on both sides of each axis.
    pub open spec fn valid(self) -> bool {
        &&& self.h.m > 0
        &&& self.hsq().m > 0
        &&& self.coefficients().poly6.m > 0
        &&& less(Scalar::one().neg(), self.bound_damping)
        &&& self.bound_damping.m < 0
        &&& !less(self.width.sub(self.h), self.h)
        &&& !less(self.height.sub(self.h), self.h)
    }

    /// The constants of the standard dam-break scene: radius 16, mass 2.5,
    /// stiffness 2000, rest density 300, viscosity 200, gravity (0, -10),
    /// timestep 0.0007, damping -0.5, at most 250000 particles, a domain of
    /// 1000 by 1000.
    pub open spec fn standard_spec() -> Config {
        Config {
            h: Scalar::from_int(16),
            mass: Scalar::from_int(5).div(Scalar::from_int(2)),
            gas_constant: Scalar::from_int(2000),
            rest_density: Scalar::from_int(300),
            viscosity: Scalar::from_int(200),
            gravity: Vec2::new(Scalar::zero(), Scalar::from_int(10).neg()),
            dt: Scalar::from_int(7).div(Scalar::from_int(10000)),
            bound_damping: Scalar::from_int(1).div(Scalar::from_int(2)).neg(),
            particle_cap: 250000,
            width: Scalar::from_int(1000),
            height: Scalar::from_int(1000),
        }
    }

    #[verifier::when_used_as_spec(hsq_spec)]
    pub fn hsq(self) -> (r: Scalar)
        ensures
            r == self.hsq_spec(),
    {
        self.h.mul(self.h)
    }

    #[verifier::when_used_as_spec(coefficients_spec)]
    pub fn coefficients(self) -> (r: Coefficients)
        requires
            self.hsq().m != 0,
        ensures
            r == self.coefficients_spec(),
    {
        let hsq: Scalar = self.hsq();
        let pi: Scalar = Scalar::pi();
        Coefficients {
            hsq,
            poly6: self.mass.mul(Scalar::from_int(4)).div(pi).div(hsq),
            spiky: Scalar::from_int(10).div(pi).div(hsq).neg(),
            visc: self.viscosity.mul(self.mass).mul(Scalar::from_int(40)).div(pi).div(hsq).div(hsq),
        }
    }

    /// Whether the constants are valid.
    pub fn is_valid(&self) -> (r: bool)
        ensures
            r == self.valid(),
    {
        if self.h.m <= 0 || self.hsq().m <= 0 {
            return false;
        }
        let k: Coefficients = self.coefficients();
        k.poly6.m > 0 && Scalar::one().neg().lt(self.bound_damping) && self.bound_damping.m < 0
            && self.h.le(self.width.sub(self.h)) && self.h.le(self.height.sub(self.h))
    }

    /// The constants of the standard dam-break scene.
    #[verifier::when_used_as_spec(standard_spec)]
    pub fn standard() -> (r: Config)
        ensures
            r == Config::standard_spec(),
            r.valid(),
    {
        proof {
            lemma2_to64();
            lemma2_to64_rest();
            lemma_from_int_value(2, 38, 549755813888);
            lemma_from_int_value(10000, 26, 671088640000);
            lemma_standard_values();
        }
        Config {
            h: Scalar::from_int(16),
            mass: Scalar::from_int(5).div(Scalar::from_int(2)),
            gas_constant: Scalar::from_int(2000),
            rest_density: Scalar::from_int(300),
            viscosity: Scalar::from_int(200),
            gravity: Vec2::new(Scalar::zero(), Scalar::from_int(10).neg()),
            dt: Scalar::from_int(7).div(Scalar::from_int(10000)),
            bound_damping: Scalar::from_int(1).div(Scalar::from_int(2)).neg(),
            particle_cap: 250000,
            width: Scalar::from_int(1000),
            height: Scalar::from_int(1000),
        }
    }
}

/// The values of the standard constants and of their coefficients.
pub proof fn lemma_standard_values()
    ensures
        Config::standard().h == Scalar::of(549755813888, -35),
        Config::standard().mass == Scalar::of(687194767360, -38),
        Config::standard().gas_constant == Scalar::of(1073741824000, -29),
        Config::standard().rest_density == Scalar::of(644245094400, -31),
        Config::standard().viscosity == Scalar::of(858993459200, -32),
        Config::standard().gravity.y == Scalar::of(-687194767360, -36),
        Config::standard().dt == Scalar::of(788129934789, -50),
        Config::standard().bound_damping == Scalar::of(-549755813888, -40),
        Config::standard().width == Scalar::of(1073741824000, -30),
        Config::standard().height == Scalar::of(1073741824000, -30),
        Config::standard().hsq() == Scalar::of(549755813888, -31),
        Config::standard().coefficients().poly6 == Scalar::of(874963552738, -46),
        Config::standard().coefficients().spiky == Scalar::of(-874963552738, -46),
        Config::standard().coefficients().visc == Scalar::of(854456594470, -43),
        Config::standard().width.sub(Config::standard().h) == Scalar::of(1056561954816, -30),
        Config::standard().valid(),
{
    lemma2_to64();
    lemma2_to64_rest();
    lemma_from_int_value(16, 35, 549755813888);
    lemma_from_int_value(5, 37, 687194767360);
    lemma_from_int_value(2, 38, 549755813888);
    lemma_div_value(687194767360, -37, 549755813888, -38, 1374389534720, 1, 687194767360);
    lemma_from_int_value(2000, 29, 1073741824000);
    lemma_from_int_value(300, 31, 644245094400);
    lemma_from_int_value(200, 32, 858993459200);
    lemma_from_int_value(10, 36, 687194767360);
    lemma_from_int_value(7, 37, 962072674304);
    lemma_from_int_value(10000, 26, 671088640000);
    lemma_div_value(962072674304, -37, 671088640000, -26, 1576259869579, 1, 788129934789);
    lemma_from_int_value(1, 39, 549755813888);
    lemma_div_value(549755813888, -39, 549755813888, -38, 1099511627776, 1, 549755813888);
    lemma_from_int_value(1000, 30, 1073741824000);
    lemma_from_int_value(4, 37, 549755813888);
    lemma_from_int_value(40, 34, 687194767360);
    lemma_mul_value(549755813888, -35, 549755813888, -35, 39, 549755813888);
    // poly6
    lemma_mul_value(687194767360, -38, 549755813888, -37, 39, 687194767360);
    lemma_div_value(687194767360, -36, 863554413089, -38, 874963552738, 0, 874963552738);
    lemma_div_value(874963552738, -38, 549755813888, -31, 1749927105476, 1, 874963552738);
    // spiky
    lemma_div_value(687194767360, -36, 863554413089, -38, 874963552738, 0, 874963552738);
    lemma_div_value(874963552738, -38, 549755813888, -31, 1749927105476, 1, 874963552738);
    // viscosity
    lemma_mul_value(858993459200, -32, 687194767360, -38, 39, 1073741824000);
    lemma_mul_value(1073741824000, -31, 687194767360, -34, 40, 671088640000);
    lemma_div_value(671088640000, -25, 863554413089, -38, 854456594470, 0, 854456594470);
    lemma_div_value(854456594470, -27, 549755813888, -31, 1708913188940, 1, 854456594470);
    lemma_div_value(854456594470, -35, 549755813888, -31, 1708913188940, 1, 854456594470);
    // width - h
    lemma_sum_value(1073741824000, -30, -549755813888, -35, 33809982554112, 5, 0, 1056561954816);
}

/// The standard timestep is 7/10000 cut to 40 bits: it falls short of
/// 7/10000 by less than 2^-50.
pub proof fn lemma_standard_timestep()
    ensures
        Config::standard().dt.e == -50,
        7 * 1125899906842624 - 10000 < Config::standard().dt.m * 10000 <= 7 * 1125899906842624,
{
    lemma_standard_values();
}

} // verus!
