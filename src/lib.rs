//! Keplerian orbit propagation and geometry on fixed-point numbers.
//!
//! Every length, time and angle is a fixed-point integer: the value `SCALE`
//! stands for one unit (metre, second or radian), so one step is a billionth
//! of a unit. Angles are radians normalised to `[0, TAU)`. Sines and cosines
//! are supplied by the caller as fixed-point pairs (`Rot`), so that every
//! formula below is exact integer arithmetic, rounded down or toward zero as
//! each contract states.
//!
//! The Kepler solver is a step machine: the caller evaluates the sine and
//! cosine of each estimate and the solver decides the next one, so a run is
//! bounded, deterministic and ends converged or with its best estimate.

mod anomaly;
mod body;
mod ellipse;
mod error;
mod fixed;
mod frame;
mod kepler;
mod orbit;
mod plane;
mod world;

pub use fixed::{div_floor, fx_mul, isqrt, normalize_angle, Rot, PI, SCALE, TAU};
pub use anomaly::{
    apoapsis_radius, get_orbital_velocity, mean_angular_motion, mean_anomaly_at_time, periapsis_radius,
    radius_at_true_anomaly, calc_eccentric, calc_true_anomaly, MAX_AXIS,
};
pub use body::{sphere_volume, OrbitalBody, MAX_BODY_RADIUS, MAX_DENSITY};
pub use error::OrbitError;
pub use kepler::{KeplerSolver, SolverOutcome, SolverStep, SolverView, EPSILON, MAX_ITERATIONS};
pub use ellipse::{Ellipse, EllipseView};
pub use plane::{negate, rotate_y, rotate_z, OrbitalPlane, OrbitalPlaneView, PlaneRots, Vec3, MAX_COORD};
pub use frame::{ReferenceFrame, MAX_OFFSET, MAX_TRANSLATION};
pub use orbit::{ring_angles, EllipticalOrbit, EllipticalOrbitView, MAX_RING_STEPS};
pub use world::{
    OrbitRanges, OrbitRng, OrbitVisualizerPlugin, PlanetNode, SolarSystem, Span, Sun, WorldGeneratorPlugin,
    WorldUpdaterPlugin, MOONS_PER_PLANET, PLANETS,
};
