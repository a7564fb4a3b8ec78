use vstd::prelude::*;
use rand::Rng;
use rand_pcg::Lcg128Xsl64;
use rand_seeder::Seeder;
use crate::anomaly::MAX_AXIS;
use crate::ellipse::semi_minor_of;
use crate::fixed::{div_floor, fx, fx_mul, SCALE, TAU};
use crate::orbit::{EllipticalOrbit, EllipticalOrbitView};
use crate::plane::Vec3;

verus! {

#[verifier::external_type_specification]
#[verifier::external_body]
pub struct ExLcg128Xsl64(Lcg128Xsl64);

/// Relies on `rand_seeder::Seeder::make_rng`: a PCG generator whose seed is
/// derived from `seed` alone, so that equal texts give equal sequences.
#[verifier::external_body]
fn seeded_generator(seed: &str) -> (r: Lcg128Xsl64) {
    Seeder::from(seed).make_rng()
}

/// Relies on `rand::Rng::gen_range`: a value in `low..high`, which panics
/// only on an empty range.
#[verifier::external_body]
fn draw(rng: &mut Lcg128Xsl64, low: i64, high: i64) -> (r: i64)
    requires
        low < high,
    ensures
        low <= r < high,
{
    rng.gen_range(low..high)
}

/// A random number generator that orbits are drawn from.
pub struct OrbitRng {
    inner: Lcg128Xsl64,
}

impl OrbitRng {
    /// The generator seeded from `seed`; equal seeds give equal draws.
    pub fn from_seed(seed: &str) -> (r: OrbitRng) {
        OrbitRng { inner: seeded_generator(seed) }
    }

    /// A value in `[low, high)`.
    pub fn draw(&mut self, low: i64, high: i64) -> (r: i64)
        requires
            low < high,
        ensures
            low <= r < high,
    {
        draw(&mut self.inner, low, high)
    }
}

/// The half-open range `[low, high)`.
#[derive(Clone, Copy, Debug, PartialEq, Eq, Structural)]
pub struct Span {
    pub low: i64,
    pub high: i64,
}

/// The ranges an orbit is drawn from, each `[low, high)`.
#[derive(Clone, Copy, Debug, PartialEq, Eq, Structural)]
pub struct OrbitRanges {
    pub eccentricity: Span,
    pub semimajor_axis: Span,
    pub longitude_of_ascending_node: Span,
    pub inclination: Span,
    pub argument_of_periapsis: Span,
    pub true_anomaly: Span,
    pub period: Span,
}

/// `x` lies in the half-open range `r`.
pub open spec fn in_range(x: int, r: Span) -> bool {
    r.low <= x < r.high
}

impl OrbitRanges {
    /// Every range is non-empty and holds only valid elements and angles
    /// already in `[0, TAU)`.
    pub open spec fn wf(self) -> bool {
        &&& 0 <= self.eccentricity.low < self.eccentricity.high <= SCALE
        &&& 0 < self.semimajor_axis.low < self.semimajor_axis.high <= MAX_AXIS + 1
        &&& 0 <= self.longitude_of_ascending_node.low < self.longitude_of_ascending_node.high <= TAU
        &&& 0 <= self.inclination.low < self.inclination.high <= TAU
        &&& 0 <= self.argument_of_periapsis.low < self.argument_of_periapsis.high <= TAU
        &&& 0 <= self.true_anomaly.low < self.true_anomaly.high <= TAU
        &&& 0 < self.period.low < self.period.high
    }

    /// An orbit of any shape: eccentricity in `[0, 1)`, semi-major axis in
    /// `[0.5, 2.5]`, every angle over a whole turn, period in `[1, 60)` s.
    pub fn any_orbit() -> (r: OrbitRanges)
        ensures
            r.wf(),
            r == (OrbitRanges {
                eccentricity: Span { low: 0, high: SCALE as i64 },
                semimajor_axis: Span { low: (SCALE / 2) as i64, high: (5 * SCALE / 2 + 1) as i64 },
                longitude_of_ascending_node: Span { low: 0, high: TAU as i64 },
                inclination: Span { low: 0, high: TAU as i64 },
                argument_of_periapsis: Span { low: 0, high: TAU as i64 },
                true_anomaly: Span { low: 0, high: TAU as i64 },
                period: Span { low: SCALE as i64, high: (60 * SCALE) as i64 },
            }),
    {
        OrbitRanges {
            eccentricity: Span { low: 0, high: SCALE },
            semimajor_axis: Span { low: SCALE / 2, high: 5 * SCALE / 2 + 1 },
            longitude_of_ascending_node: Span { low: 0, high: TAU },
            inclination: Span { low: 0, high: TAU },
            argument_of_periapsis: Span { low: 0, high: TAU },
            true_anomaly: Span { low: 0, high: TAU },
            period: Span { low: SCALE, high: 60 * SCALE },
        }
    }

    /// A nearly circular, nearly flat orbit for a generated system:
    /// eccentricity in `[0, 0.1)`, semi-major axis in `[1, 2.5]`, inclination
    /// and argument of periapsis in `[0, 0.1)`, node and true anomaly over a
    /// whole turn, period in `[1, 60)` s.
    pub fn system_orbit() -> (r: OrbitRanges)
        ensures
            r.wf(),
            r == (OrbitRanges {
                eccentricity: Span { low: 0, high: (SCALE / 10) as i64 },
                semimajor_axis: Span { low: SCALE as i64, high: (5 * SCALE / 2 + 1) as i64 },
                longitude_of_ascending_node: Span { low: 0, high: TAU as i64 },
                inclination: Span { low: 0, high: (SCALE / 10) as i64 },
                argument_of_periapsis: Span { low: 0, high: (SCALE / 10) as i64 },
                true_anomaly: Span { low: 0, high: TAU as i64 },
                period: Span { low: SCALE as i64, high: (60 * SCALE) as i64 },
            }),
    {
        OrbitRanges {
            eccentricity: Span { low: 0, high: SCALE / 10 },
            semimajor_axis: Span { low: SCALE, high: 5 * SCALE / 2 + 1 },
            longitude_of_ascending_node: Span { low: 0, high: TAU },
            inclination: Span { low: 0, high: SCALE / 10 },
            argument_of_periapsis: Span { low: 0, high: SCALE / 10 },
            true_anomaly: Span { low: 0, high: TAU },
            period: Span { low: SCALE, high: 60 * SCALE },
        }
    }
}

/// Every element of `o` lies in its range of `r`.
pub open spec fn drawn_from(o: EllipticalOrbitView, r: OrbitRanges) -> bool {
    &&& in_range(o.eccentricity, r.eccentricity)
    &&& in_range(o.semimajor_axis, r.semimajor_axis)
    &&& o.semiminor_axis == semi_minor_of(o.semimajor_axis, o.eccentricity)
    &&& in_range(o.longitude_of_ascending_node, r.longitude_of_ascending_node)
    &&& in_range(o.inclination, r.inclination)
    &&& in_range(o.argument_of_periapsis, r.argument_of_periapsis)
    &&& in_range(o.true_anomaly, r.true_anomaly)
    &&& in_range(o.period, r.period)
    &&& o.rots.is_none()
}

impl EllipticalOrbit {
    /// An orbit whose elements are drawn from `ranges`, one after another in
    /// the order of the fields.
    pub fn from_rand(rng: &mut OrbitRng, ranges: OrbitRanges) -> (r: EllipticalOrbit)
        requires
            ranges.wf(),
        ensures
            r.wf(),
            drawn_from(r@, ranges),
    {
        let e = rng.draw(ranges.eccentricity.low, ranges.eccentricity.high);
        let a = rng.draw(ranges.semimajor_axis.low, ranges.semimajor_axis.high);
        let node = rng.draw(ranges.longitude_of_ascending_node.low, ranges.longitude_of_ascending_node.high);
        let incl = rng.draw(ranges.inclination.low, ranges.inclination.high);
        let peri = rng.draw(ranges.argument_of_periapsis.low, ranges.argument_of_periapsis.high);
        let theta = rng.draw(ranges.true_anomaly.low, ranges.true_anomaly.high);
        let period = rng.draw(ranges.period.low, ranges.period.high);
        proof {
            vstd::arithmetic::div_mod::lemma_small_mod(node as nat, TAU as nat);
            vstd::arithmetic::div_mod::lemma_small_mod(incl as nat, TAU as nat);
            vstd::arithmetic::div_mod::lemma_small_mod(peri as nat, TAU as nat);
            vstd::arithmetic::div_mod::lemma_small_mod(theta as nat, TAU as nat);
        }
        let r = EllipticalOrbit::new(e, a, theta, node, peri, incl, period);
        r.unwrap()
    }
}

/// Marker of the central body of a generated system.
#[derive(Clone, Copy, Debug, PartialEq, Eq, Structural)]
pub struct Sun;

/// Number of planets in a generated system.
pub const PLANETS: usize = 3;

/// Number of moons around each generated planet.
pub const MOONS_PER_PLANET: usize = 2;

/// A planet's orbit about the sun and its moons' orbits about the planet.
pub struct PlanetNode {
    pub orbit: EllipticalOrbit,
    pub moons: Vec<EllipticalOrbit>,
}

/// A generated system: the sun and its planets.
pub struct SolarSystem {
    pub sun: Sun,
    pub planets: Vec<PlanetNode>,
}

/// Builds the orbits of a system.
pub struct WorldGeneratorPlugin;

/// An orbit of a generated system.
pub open spec fn system_orbit_ok(o: EllipticalOrbit) -> bool {
    o.wf() && drawn_from(o@, OrbitRanges::system_orbit_spec())
}

impl OrbitRanges {
    /// The ranges of `system_orbit`.
    pub open spec fn system_orbit_spec() -> OrbitRanges {
        OrbitRanges {
            eccentricity: Span { low: 0, high: (SCALE / 10) as i64 },
            semimajor_axis: Span { low: SCALE as i64, high: (5 * SCALE / 2 + 1) as i64 },
            longitude_of_ascending_node: Span { low: 0, high: TAU as i64 },
            inclination: Span { low: 0, high: (SCALE / 10) as i64 },
            argument_of_periapsis: Span { low: 0, high: (SCALE / 10) as i64 },
            true_anomaly: Span { low: 0, high: TAU as i64 },
            period: Span { low: SCALE as i64, high: (60 * SCALE) as i64 },
        }
    }
}

impl WorldGeneratorPlugin {
    /// A system of `PLANETS` planets with `MOONS_PER_PLANET` moons each, every
    /// orbit drawn from `system_orbit`: each planet, then its moons.
    pub fn generate_world(rng: &mut OrbitRng) -> (r: SolarSystem)
        ensures
            r.planets@.len() == PLANETS,
            forall|i: int| 0 <= i < PLANETS ==> {
                let p = #[trigger] r.planets@[i];
                &&& system_orbit_ok(p.orbit)
                &&& p.moons@.len() == MOONS_PER_PLANET
                &&& forall|j: int| 0 <= j < MOONS_PER_PLANET ==> system_orbit_ok(#[trigger] p.moons@[j])
            },
    {
        let ranges = OrbitRanges::system_orbit();
        let mut planets: Vec<PlanetNode> = Vec::new();
        let mut i: usize = 0;
        while i < PLANETS
            invariant
                i <= PLANETS,
                ranges == OrbitRanges::system_orbit_spec(),
                ranges.wf(),
                planets@.len() == i,
                forall|k: int| 0 <= k < i ==> {
                    let p = #[trigger] planets@[k];
                    &&& system_orbit_ok(p.orbit)
                    &&& p.moons@.len() == MOONS_PER_PLANET
                    &&& forall|j: int| 0 <= j < MOONS_PER_PLANET ==> system_orbit_ok(#[trigger] p.moons@[j])
                },
            decreases PLANETS - i,
        {
            let orbit = EllipticalOrbit::from_rand(rng, ranges);
            let mut moons: Vec<EllipticalOrbit> = Vec::new();
            let mut j: usize = 0;
            while j < MOONS_PER_PLANET
                invariant
                    j <= MOONS_PER_PLANET,
                    ranges == OrbitRanges::system_orbit_spec(),
                    ranges.wf(),
                    moons@.len() == j,
                    forall|k: int| 0 <= k < j ==> system_orbit_ok(#[trigger] moons@[k]),
                decreases MOONS_PER_PLANET - j,
            {
                let m = EllipticalOrbit::from_rand(rng, ranges);
                moons.push(m);
                j = j + 1;
            }
            planets.push(PlanetNode { orbit, moons });
            i = i + 1;
        }
        SolarSystem { sun: Sun, planets }
    }
}

/// Draws orbits as closed polylines.
pub struct OrbitVisualizerPlugin;

impl OrbitVisualizerPlugin {
    /// The segments between consecutive points of a closed ring, the last
    /// joining the final point back to the first.
    pub fn orbit_lines(points: &Vec<Vec3>) -> (r: Vec<(Vec3, Vec3)>)
        ensures
            r@.len() == points@.len(),
            forall|k: int| 0 <= k < points@.len() - 1 ==>
                #[trigger] r@[k] == (points@[k], points@[k + 1]),
            points@.len() > 0 ==> r@[points@.len() - 1] == (points@[points@.len() - 1], points@[0]),
    {
        let n = points.len();
        let mut out: Vec<(Vec3, Vec3)> = Vec::new();
        let mut k: usize = 0;
        while k < n
            invariant
                n == points@.len(),
                k <= n,
                out@.len() == k,
                forall|i: int| 0 <= i < k && i < n - 1 ==>
                    #[trigger] out@[i] == (points@[i], points@[i + 1]),
                k == n && n > 0 ==> out@[n - 1] == (points@[n - 1], points@[0]),
            decreases n - k,
        {
            let next: usize = if k + 1 == n { 0 } else { k + 1 };
            out.push((points[k], points[next]));
            k = k + 1;
        }
        out
    }
}

/// Advances the scene's animated angles.
pub struct WorldUpdaterPlugin;

impl WorldUpdaterPlugin {
    /// The angle `speed·time` reduced into `[0, TAU)`.
    pub fn get_cyclic_time(speed: i64, time: i64) -> (r: i64)
        ensures
            r == fx(speed as int, time as int) % (TAU as int),
            0 <= r < TAU,
    {
        let p = fx_mul(speed, time);
        proof {
            let k = SCALE as int;
            let prod = (speed as int) * (time as int);
            assert(-0x4000_0000_0000_0000_0000_0000_0000_0000 <= prod
                <= 0x4000_0000_0000_0000_0000_0000_0000_0000) by (nonlinear_arith)
                requires -0x8000_0000_0000_0000 <= speed <= 0x7fff_ffff_ffff_ffff,
                    -0x8000_0000_0000_0000 <= time <= 0x7fff_ffff_ffff_ffff, prod == speed * time;
            vstd::arithmetic::div_mod::lemma_div_is_ordered(prod, 0x4000_0000_0000_0000_0000_0000_0000_0000, k);
            vstd::arithmetic::div_mod::lemma_div_is_ordered(-0x4000_0000_0000_0000_0000_0000_0000_0000, prod, k);
            vstd::arithmetic::div_mod::lemma_div_is_ordered_by_denominator(0x4000_0000_0000_0000_0000_0000_0000_0000, 1, k);
            vstd::arithmetic::div_mod::lemma_fundamental_div_mod(-0x4000_0000_0000_0000_0000_0000_0000_0000, k);
            vstd::arithmetic::div_mod::lemma_mod_bound(-0x4000_0000_0000_0000_0000_0000_0000_0000, k);
        }
        let t = TAU as i128;
        let q = div_floor(p, t);
        proof {
            vstd::arithmetic::div_mod::lemma_fundamental_div_mod(p as int, t as int);
            vstd::arithmetic::div_mod::lemma_mod_bound(p as int, t as int);
            assert(q * t == p - (p as int) % (t as int)) by (nonlinear_arith)
                requires p == t * q + (p as int) % (t as int);
        }
        (p - q * t) as i64
    }
}

} // verus!
