use vstd::prelude::*;
use crate::fixed::{div_floor, fx, fx_mul, PI, SCALE};

verus! {

/// Largest radius of a body (about 4398 units).
pub const MAX_BODY_RADIUS: i64 = 0x0400_0000_0000;

/// Largest density of a body (about 4398 units).
pub const MAX_DENSITY: i64 = 0x0400_0000_0000;

/// Bound on the volume of a body.
pub const MAX_VOLUME: i128 = 356_342_861_288_074_454_429;

/// Volume `4/3·π·r³` of a sphere, each product rounded down.
pub open spec fn sphere_volume_of(r: int) -> int {
    4 * fx(fx(fx(PI as int, r), r), r) / 3
}

/// A fixed-point product of bounded non-negative values is bounded.
proof fn lemma_fx_bound(x: int, y: int, bx: int, by: int)
    requires
        0 <= x <= bx,
        0 <= y <= by,
    ensures
        0 <= fx(x, y) <= fx(bx, by),
{
    assert(0 <= x * y <= bx * by) by (nonlinear_arith)
        requires 0 <= x <= bx, 0 <= y <= by;
    vstd::arithmetic::div_mod::lemma_div_is_ordered(x * y, bx * by, SCALE as int);
    vstd::arithmetic::div_mod::lemma_div_pos_is_pos(x * y, SCALE as int);
}

/// Volume of a sphere of `radius`.
pub fn sphere_volume(radius: i64) -> (r: i128)
    requires
        0 <= radius <= MAX_BODY_RADIUS,
    ensures
        r == sphere_volume_of(radius as int),
        0 <= r <= MAX_VOLUME,
{
    let ghost m = MAX_BODY_RADIUS as int;
    let ghost rr = radius as int;
    proof {
        lemma_fx_bound(PI as int, rr, PI as int, m);
        crate::fixed::lemma_floor_unique(PI * m, SCALE as int, 13_816_870_606_836);
        lemma_fx_bound(fx(PI as int, rr), rr, 13_816_870_606_836, m);
        crate::fixed::lemma_floor_unique(13_816_870_606_836 * m, SCALE as int, 60_767_239_566_770_477);
        lemma_fx_bound(fx(fx(PI as int, rr), rr), rr, 60_767_239_566_770_477, m);
        crate::fixed::lemma_floor_unique(60_767_239_566_770_477 * m, SCALE as int, 267_257_145_966_055_840_822);
    }
    let pi_r = fx_mul(PI, radius);
    let pi_r2 = div_floor(pi_r * radius as i128, SCALE as i128);
    let pi_r3 = div_floor(pi_r2 * radius as i128, SCALE as i128);
    proof {
        vstd::arithmetic::div_mod::lemma_div_pos_is_pos(4 * pi_r3, 3);
        vstd::arithmetic::div_mod::lemma_div_is_ordered(4 * pi_r3, 4 * 267_257_145_966_055_840_822int, 3);
    }
    4 * pi_r3 / 3
}

/// A spherical body that can orbit.
#[derive(Clone, Copy, Debug, PartialEq, Eq, Structural)]
pub struct OrbitalBody {
    pub mass: i128,
    pub radius: i64,
    pub density: i64,
    pub volume: i128,
    pub spin_velocity: i64,
}

impl OrbitalBody {
    /// The body with the given quantities, taken as they are.
    pub fn new(mass: i128, radius: i64, density: i64, volume: i128, spin_velocity: i64) -> (r: OrbitalBody)
        ensures
            r == (OrbitalBody { mass, radius, density, volume, spin_velocity }),
    {
        OrbitalBody { mass, radius, density, volume, spin_velocity }
    }

    /// A sphere of `radius` and `density`: its volume is `4/3·π·r³` and its
    /// mass the volume times the density.
    pub fn from_sphere(radius: i64, density: i64, spin_velocity: i64) -> (r: OrbitalBody)
        requires
            0 <= radius <= MAX_BODY_RADIUS,
            0 <= density <= MAX_DENSITY,
        ensures
            r.volume == sphere_volume_of(radius as int),
            r.mass == fx(sphere_volume_of(radius as int), density as int),
            r.radius == radius,
            r.density == density,
            r.spin_velocity == spin_velocity,
    {
        let volume = sphere_volume(radius);
        proof {
            let v = volume as int;
            assert(0 <= v * density <= MAX_VOLUME * MAX_DENSITY) by (nonlinear_arith)
                requires 0 <= v <= MAX_VOLUME, 0 <= density <= MAX_DENSITY;
        }
        let mass = div_floor(volume * density as i128, SCALE as i128);
        OrbitalBody { mass, radius, density, volume, spin_velocity }
    }
}

} // verus!
