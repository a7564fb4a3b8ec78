use vstd::prelude::*;
use crate::anomaly::{
    mean_angular_motion, mean_anomaly_at_time, mean_anomaly_of, radius_at_true_anomaly, radius_of,
    true_anomaly_of, calc_true_anomaly, MAX_AXIS,
};
use crate::ellipse::{semi_minor_of, Ellipse};
use crate::error::OrbitError;
use crate::fixed::{div_trunc, norm_angle, normalize_angle, tdiv, Rot, SCALE, TAU};
use crate::frame::{frame_dir, frame_point, lemma_unit_coords, offset_bounded, ReferenceFrame, MAX_OFFSET};
use crate::plane::{
    ascending_of, direction_of, neg, normal_of, periapsis_of_plane, unit_bounded, OrbitalPlane,
    PlaneRots, Vec3,
};

verus! {

/// Elements the library accepts: `0 <= e < 1`, `0 < a <= MAX_AXIS`, `period > 0`.
pub open spec fn valid_elements(e: int, a: int, period: int) -> bool {
    0 <= e < SCALE && 0 < a <= MAX_AXIS && period > 0
}

/// `v` scaled by the length `r`, each coordinate rounded toward zero.
pub open spec fn scaled(v: Vec3, r: int) -> Vec3 {
    Vec3 {
        x: tdiv(v.x * r, SCALE as int) as i64,
        y: tdiv(v.y * r, SCALE as int) as i64,
        z: tdiv(v.z * r, SCALE as int) as i64,
    }
}

/// Cross product `a × b` of two directions, each coordinate rounded toward zero.
pub open spec fn cross(a: Vec3, b: Vec3) -> Vec3 {
    Vec3 {
        x: tdiv(a.y * b.z - a.z * b.y, SCALE as int) as i64,
        y: tdiv(a.z * b.x - a.x * b.z, SCALE as int) as i64,
        z: tdiv(a.x * b.y - a.y * b.x, SCALE as int) as i64,
    }
}

/// The elements of an orbit as a mathematical value.
pub struct EllipticalOrbitView {
    pub eccentricity: int,
    pub semimajor_axis: int,
    pub semiminor_axis: int,
    pub true_anomaly: int,
    pub longitude_of_ascending_node: int,
    pub argument_of_periapsis: int,
    pub inclination: int,
    pub period: int,
    pub rots: Option<PlaneRots>,
}

/// Where the body at true anomaly `theta` lies: the direction at `theta`
/// scaled by the radius there, placed in the parent frame `fr`.
pub open spec fn position_of(o: EllipticalOrbitView, fr: ReferenceFrame, theta: Rot) -> Vec3 {
    frame_point(fr, scaled(
        direction_of(o.rots.unwrap(), theta),
        radius_of(o.semimajor_axis, o.eccentricity, theta.cos as int),
    ))
}

/// An elliptical Kepler orbit: its shape, its plane relative to a parent
/// reference frame, the body's true anomaly and the period.
///
/// The semi-minor axis is recomputed whenever the shape changes; the
/// cosines and sines of the plane's angles are cached, dropped by every
/// change of an angle and supplied again with `refresh_orientation`.
pub struct EllipticalOrbit {
    shape: Ellipse,
    plane: OrbitalPlane,
    true_anomaly: i64,
    period: i64,
}

impl View for EllipticalOrbit {
    type V = EllipticalOrbitView;

    closed spec fn view(&self) -> EllipticalOrbitView {
        EllipticalOrbitView {
            eccentricity: self.shape@.eccentricity,
            semimajor_axis: self.shape@.semi_major,
            semiminor_axis: self.shape@.semi_minor,
            true_anomaly: self.true_anomaly as int,
            longitude_of_ascending_node: self.plane@.ascending,
            argument_of_periapsis: self.plane@.periapsis,
            inclination: self.plane@.inclination,
            period: self.period as int,
            rots: self.plane@.rots,
        }
    }
}

impl EllipticalOrbit {
    /// Valid elements, the semi-minor axis matching the shape, angles in
    /// `[0, TAU)` and a well-formed cache.
    pub closed spec fn wf(&self) -> bool {
        &&& valid_elements(self.shape@.eccentricity, self.shape@.semi_major, self.period as int)
        &&& self.shape@.semi_minor == semi_minor_of(self.shape@.semi_major, self.shape@.eccentricity)
        &&& crate::ellipse::ellipse_wf(self.shape@)
        &&& self.plane.wf()
        &&& 0 <= self.true_anomaly < TAU
    }

    /// What every well-formed orbit satisfies.
    pub proof fn lemma_wf(&self)
        requires
            self.wf(),
        ensures
            valid_elements(self@.eccentricity, self@.semimajor_axis, self@.period),
            self@.semiminor_axis == semi_minor_of(self@.semimajor_axis, self@.eccentricity),
            0 <= self@.true_anomaly < TAU,
            0 <= self@.longitude_of_ascending_node < TAU,
            0 <= self@.argument_of_periapsis < TAU,
            0 <= self@.inclination < TAU,
            self@.rots matches Some(r) ==> r.wf(),
    {
    }

    /// The orbit with the given elements, angles reduced into `[0, TAU)`;
    /// `InvalidElements` exactly when the eccentricity lies outside `[0, 1)`,
    /// the semi-major axis outside `(0, MAX_AXIS]` or the period is not positive.
    pub fn new(
        eccentricity: i64,
        semimajor_axis: i64,
        true_anomaly: i64,
        longitude_of_ascending_node: i64,
        argument_of_periapsis: i64,
        inclination: i64,
        period: i64,
    ) -> (r: Result<EllipticalOrbit, OrbitError>)
        ensures
            r.is_ok() == valid_elements(eccentricity as int, semimajor_axis as int, period as int),
            r.is_err() ==> r == Err::<EllipticalOrbit, OrbitError>(OrbitError::InvalidElements),
            r matches Ok(o) ==> o.wf() && o@ == (EllipticalOrbitView {
                eccentricity: eccentricity as int,
                semimajor_axis: semimajor_axis as int,
                semiminor_axis: semi_minor_of(semimajor_axis as int, eccentricity as int),
                true_anomaly: norm_angle(true_anomaly as int),
                longitude_of_ascending_node: norm_angle(longitude_of_ascending_node as int),
                argument_of_periapsis: norm_angle(argument_of_periapsis as int),
                inclination: norm_angle(inclination as int),
                period: period as int,
                rots: None,
            }),
    {
        if eccentricity < 0 || eccentricity >= SCALE || semimajor_axis <= 0
            || semimajor_axis > MAX_AXIS || period <= 0 {
            return Err(OrbitError::InvalidElements);
        }
        Ok(EllipticalOrbit {
            shape: Ellipse::from_major(semimajor_axis, eccentricity),
            plane: OrbitalPlane::new(longitude_of_ascending_node, inclination, argument_of_periapsis),
            true_anomaly: normalize_angle(true_anomaly),
            period,
        })
    }

    pub fn eccentricity(&self) -> (r: i64)
        ensures
            r == self@.eccentricity,
    {
        self.shape.eccentricity()
    }

    pub fn semimajor_axis(&self) -> (r: i64)
        ensures
            r == self@.semimajor_axis,
    {
        self.shape.semi_major()
    }

    pub fn semiminor_axis(&self) -> (r: i64)
        ensures
            r == self@.semiminor_axis,
    {
        self.shape.semi_minor()
    }

    pub fn true_anomaly(&self) -> (r: i64)
        ensures
            r == self@.true_anomaly,
    {
        self.true_anomaly
    }

    pub fn longitude_of_ascending_node(&self) -> (r: i64)
        ensures
            r == self@.longitude_of_ascending_node,
    {
        self.plane.ascending_arg()
    }

    pub fn argument_of_periapsis(&self) -> (r: i64)
        ensures
            r == self@.argument_of_periapsis,
    {
        self.plane.periapsis_arg()
    }

    pub fn inclination(&self) -> (r: i64)
        ensures
            r == self@.inclination,
    {
        self.plane.inclination_arg()
    }

    pub fn period(&self) -> (r: i64)
        ensures
            r == self@.period,
    {
        self.period
    }

    /// The cached cosines and sines of the plane's angles, if current.
    pub fn rotations(&self) -> (r: Option<PlaneRots>)
        ensures
            r == self@.rots,
    {
        self.plane.rotations()
    }

    /// Sets the true anomaly, reduced into `[0, TAU)`.
    pub fn set_true_anomaly(&mut self, value: i64)
        requires
            old(self).wf(),
        ensures
            final(self).wf(),
            final(self)@ == (EllipticalOrbitView {
                true_anomaly: norm_angle(value as int),
                ..old(self)@
            }),
    {
        self.true_anomaly = normalize_angle(value);
    }

    /// Sets the eccentricity and recomputes the semi-minor axis;
    /// `InvalidElements`, with nothing changed, exactly when `value` lies
    /// outside `[0, 1)`.
    pub fn set_eccentricity(&mut self, value: i64) -> (r: Result<(), OrbitError>)
        requires
            old(self).wf(),
        ensures
            final(self).wf(),
            r.is_ok() == (0 <= value < SCALE),
            r.is_err() ==> r == Err::<(), OrbitError>(OrbitError::InvalidElements)
                && final(self)@ == old(self)@,
            r.is_ok() ==> final(self)@ == (EllipticalOrbitView {
                eccentricity: value as int,
                semiminor_axis: semi_minor_of(old(self)@.semimajor_axis, value as int),
                ..old(self)@
            }),
    {
        if value < 0 || value >= SCALE {
            return Err(OrbitError::InvalidElements);
        }
        self.shape.set_eccentricity(value);
        Ok(())
    }

    /// Sets the semi-major axis and recomputes the semi-minor axis;
    /// `InvalidElements`, with nothing changed, exactly when `value` lies
    /// outside `(0, MAX_AXIS]`.
    pub fn set_semi_major_axis(&mut self, value: i64) -> (r: Result<(), OrbitError>)
        requires
            old(self).wf(),
        ensures
            final(self).wf(),
            r.is_ok() == (0 < value <= MAX_AXIS),
            r.is_err() ==> r == Err::<(), OrbitError>(OrbitError::InvalidElements)
                && final(self)@ == old(self)@,
            r.is_ok() ==> final(self)@ == (EllipticalOrbitView {
                semimajor_axis: value as int,
                semiminor_axis: semi_minor_of(value as int, old(self)@.eccentricity),
                ..old(self)@
            }),
    {
        if value <= 0 || value > MAX_AXIS {
            return Err(OrbitError::InvalidElements);
        }
        self.shape.set_semi_major(value);
        Ok(())
    }

    /// Sets the period; `InvalidElements`, with nothing changed, exactly
    /// when `value` is not positive.
    pub fn set_period(&mut self, value: i64) -> (r: Result<(), OrbitError>)
        requires
            old(self).wf(),
        ensures
            final(self).wf(),
            r.is_ok() == (value > 0),
            r.is_err() ==> r == Err::<(), OrbitError>(OrbitError::InvalidElements)
                && final(self)@ == old(self)@,
            r.is_ok() ==> final(self)@ == (EllipticalOrbitView { period: value as int, ..old(self)@ }),
    {
        if value <= 0 {
            return Err(OrbitError::InvalidElements);
        }
        self.period = value;
        Ok(())
    }

    /// Sets the longitude of the ascending node and drops the cached rotations.
    pub fn set_ascending_node(&mut self, value: i64)
        requires
            old(self).wf(),
        ensures
            final(self).wf(),
            final(self)@ == (EllipticalOrbitView {
                longitude_of_ascending_node: norm_angle(value as int),
                rots: None,
                ..old(self)@
            }),
    {
        self.plane.set_ascending_arg(value);
    }

    /// Sets the inclination and drops the cached rotations.
    pub fn set_inclination(&mut self, value: i64)
        requires
            old(self).wf(),
        ensures
            final(self).wf(),
            final(self)@ == (EllipticalOrbitView {
                inclination: norm_angle(value as int),
                rots: None,
                ..old(self)@
            }),
    {
        self.plane.set_inclination_arg(value);
    }

    /// Sets the argument of periapsis and drops the cached rotations.
    pub fn set_argument_of_periapsis(&mut self, value: i64)
        requires
            old(self).wf(),
        ensures
            final(self).wf(),
            final(self)@ == (EllipticalOrbitView {
                argument_of_periapsis: norm_angle(value as int),
                rots: None,
                ..old(self)@
            }),
    {
        self.plane.set_periapsis_arg(value);
    }

    /// Stores the cosines and sines of the node, inclination and periapsis angles.
    pub fn refresh_orientation(&mut self, rots: PlaneRots)
        requires
            old(self).wf(),
            rots.wf(),
        ensures
            final(self).wf(),
            final(self)@ == (EllipticalOrbitView { rots: Some(rots), ..old(self)@ }),
    {
        self.plane.refresh(rots);
    }

    /// Mean angular motion `2π / period`.
    pub fn mean_angular_motion(&self) -> (r: i64)
        requires
            self.wf(),
        ensures
            r == TAU * SCALE / self@.period,
    {
        mean_angular_motion(self.period)
    }

    /// Mean anomaly at `time`, periapsis passage at time zero.
    pub fn mean_anomaly(&self, time: i64) -> (r: i64)
        requires
            self.wf(),
        ensures
            r == mean_anomaly_of(self@.period, time as int, 0),
            0 <= r < TAU,
    {
        mean_anomaly_at_time(self.period, time, 0)
    }

    /// Distance from the focus at the true anomaly `theta`.
    pub fn radius_at(&self, theta: Rot) -> (r: i64)
        requires
            self.wf(),
            theta.wf(),
        ensures
            r == radius_of(self@.semimajor_axis, self@.eccentricity, theta.cos as int),
            0 <= r <= 2 * self@.semimajor_axis,
    {
        radius_at_true_anomaly(self.shape.semi_major(), self.shape.eccentricity(), theta)
    }

    /// Position of the body at the true anomaly `theta`, in world coordinates.
    pub fn position_at_true_anomaly(&self, reference_frame: &ReferenceFrame, theta: Rot) -> (r: Vec3)
        requires
            self.wf(),
            self@.rots.is_some(),
            reference_frame.wf(),
            theta.wf(),
        ensures
            r == position_of(self@, *reference_frame, theta),
    {
        let dir = self.plane.direction_at(theta);
        let radius = self.radius_at(theta);
        let off = scale(dir, radius);
        reference_frame.to_world_point(off)
    }

    /// Position of periapsis, `a(1 - e)` from the focus.
    pub fn periapsis_node(&self, reference_frame: &ReferenceFrame) -> (r: Vec3)
        requires
            self.wf(),
            self@.rots.is_some(),
            reference_frame.wf(),
        ensures
            r == position_of(self@, *reference_frame, Rot { cos: SCALE as i64, sin: 0 }),
    {
        let zero = Rot::identity();
        self.position_at_true_anomaly(reference_frame, zero)
    }

    /// Position of apoapsis, `a(1 + e)` from the focus.
    pub fn apoapsis_node(&self, reference_frame: &ReferenceFrame) -> (r: Vec3)
        requires
            self.wf(),
            self@.rots.is_some(),
            reference_frame.wf(),
        ensures
            r == position_of(self@, *reference_frame, Rot { cos: -SCALE as i64, sin: 0 }),
    {
        self.position_at_true_anomaly(reference_frame, Rot::half_turn())
    }

    /// Position of the body at the eccentric anomaly whose cosine and sine
    /// are `eccentric_anomaly`, in world coordinates.
    pub fn position_at_eccentric_anomaly(&self, reference_frame: &ReferenceFrame, eccentric_anomaly: Rot) -> (r: Vec3)
        requires
            self.wf(),
            self@.rots.is_some(),
            reference_frame.wf(),
            eccentric_anomaly.wf(),
        ensures
            r == position_of(self@, *reference_frame, true_anomaly_of(self@.eccentricity, eccentric_anomaly)),
    {
        let theta = calc_true_anomaly(self.shape.eccentricity(), eccentric_anomaly);
        self.position_at_true_anomaly(reference_frame, theta)
    }

    /// Direction of the ascending node, in world coordinates.
    pub fn ascending_dir(&self, reference_frame: &ReferenceFrame) -> (r: Vec3)
        requires
            self.wf(),
            self@.rots.is_some(),
            reference_frame.wf(),
        ensures
            r == frame_dir(*reference_frame, ascending_of(self@.rots.unwrap())),
    {
        let v = self.plane.ascending_local();
        proof { lemma_unit_coords(v); }
        reference_frame.to_world_dir(v)
    }

    /// Direction of the descending node, in world coordinates.
    pub fn descending_dir(&self, reference_frame: &ReferenceFrame) -> (r: Vec3)
        requires
            self.wf(),
            self@.rots.is_some(),
            reference_frame.wf(),
        ensures
            r == frame_dir(*reference_frame, neg(ascending_of(self@.rots.unwrap()))),
    {
        let v = self.plane.descending_local();
        proof { lemma_unit_coords(v); }
        reference_frame.to_world_dir(v)
    }

    /// Normal of the orbital plane, in world coordinates.
    pub fn orbital_normal(&self, reference_frame: &ReferenceFrame) -> (r: Vec3)
        requires
            self.wf(),
            self@.rots.is_some(),
            reference_frame.wf(),
        ensures
            r == frame_dir(*reference_frame, normal_of(self@.rots.unwrap())),
    {
        let v = self.plane.zenith_local();
        proof { lemma_unit_coords(v); }
        reference_frame.to_world_dir(v)
    }

    /// Direction of periapsis, in world coordinates.
    pub fn periapsis_dir(&self, reference_frame: &ReferenceFrame) -> (r: Vec3)
        requires
            self.wf(),
            self@.rots.is_some(),
            reference_frame.wf(),
        ensures
            r == frame_dir(*reference_frame, periapsis_of_plane(self@.rots.unwrap())),
    {
        let v = self.plane.periapsis_local();
        proof { lemma_unit_coords(v); }
        reference_frame.to_world_dir(v)
    }

    /// Direction of apoapsis, in world coordinates.
    pub fn apoapsis_dir(&self, reference_frame: &ReferenceFrame) -> (r: Vec3)
        requires
            self.wf(),
            self@.rots.is_some(),
            reference_frame.wf(),
        ensures
            r == frame_dir(*reference_frame, neg(periapsis_of_plane(self@.rots.unwrap()))),
    {
        let v = self.plane.apoapsis_local();
        proof { lemma_unit_coords(v); }
        reference_frame.to_world_dir(v)
    }

    /// Orientation of the orbital plane as world basis vectors
    /// `(right, up, forward)` with `up` the normal, `forward` the ascending
    /// node and `right = up × forward`.
    pub fn orientation(&self, reference_frame: &ReferenceFrame) -> (r: (Vec3, Vec3, Vec3))
        requires
            self.wf(),
            self@.rots.is_some(),
            reference_frame.wf(),
        ensures
            ({
                let p = self@.rots.unwrap();
                r == (
                    frame_dir(*reference_frame, cross(normal_of(p), ascending_of(p))),
                    frame_dir(*reference_frame, normal_of(p)),
                    frame_dir(*reference_frame, ascending_of(p)),
                )
            }),
    {
        let up = self.plane.zenith_local();
        let forward = self.plane.ascending_local();
        let right = cross_exec(up, forward);
        proof {
            lemma_unit_coords(up);
            lemma_unit_coords(forward);
        }
        (
            reference_frame.to_world_dir(right),
            reference_frame.to_world_dir(up),
            reference_frame.to_world_dir(forward),
        )
    }
}

/// Largest number of samples of a ring.
pub const MAX_RING_STEPS: usize = 1_000_000;

/// The `k`-th of `steps` true anomalies spread evenly over a turn.
pub open spec fn ring_angle(k: int, steps: int) -> int {
    k * TAU / steps
}

/// The true anomalies `k·TAU/steps` for `k` in `0..steps`: strictly
/// increasing, so distinct, and all in `[0, TAU)`; the last is followed by
/// the first one turn later.
pub fn ring_angles(steps: usize) -> (r: Vec<i64>)
    requires
        0 < steps <= MAX_RING_STEPS,
    ensures
        r@.len() == steps,
        forall|k: int| 0 <= k < steps ==> r@[k] == ring_angle(k, steps as int),
        forall|k: int| 0 <= k < steps ==> 0 <= #[trigger] r@[k] < TAU,
        forall|i: int, j: int| 0 <= i < j < steps ==> r@[i] < r@[j],
{
    let mut out: Vec<i64> = Vec::new();
    let mut k: usize = 0;
    while k < steps
        invariant
            k <= steps <= MAX_RING_STEPS,
            steps > 0,
            out@.len() == k,
            forall|i: int| 0 <= i < k ==> out@[i] == ring_angle(i, steps as int),
            forall|i: int| 0 <= i < k ==> 0 <= #[trigger] out@[i] < TAU,
            forall|i: int, j: int| 0 <= i < j < k ==> out@[i] < out@[j],
        decreases steps - k,
    {
        let ghost n = steps as int;
        proof {
            assert(0 <= (k as int) * TAU < n * TAU) by (nonlinear_arith)
                requires 0 <= k < n;
            vstd::arithmetic::div_mod::lemma_div_pos_is_pos((k as int) * TAU, n);
            vstd::arithmetic::div_mod::lemma_fundamental_div_mod((k as int) * TAU, n);
            vstd::arithmetic::div_mod::lemma_mod_bound((k as int) * TAU, n);
            let q = ring_angle(k as int, n);
            assert(q < TAU) by (nonlinear_arith)
                requires q * n <= (k as int) * TAU, (k as int) * TAU < n * TAU, n > 0;
            if k > 0 {
                let p = ring_angle(k - 1, n);
                // k·TAU >= (k-1)·TAU + n, so the quotient grows by at least one
                assert((k - 1) * TAU + n <= (k as int) * TAU) by (nonlinear_arith)
                    requires n <= MAX_RING_STEPS, k >= 1;
                vstd::arithmetic::div_mod::lemma_div_is_ordered((k - 1) * TAU + n, (k as int) * TAU, n);
                vstd::arithmetic::div_mod::lemma_div_plus_one((k - 1) * TAU, n);
                assert(p < q);
            }
            assert(q * n <= (MAX_RING_STEPS as int) * TAU) by (nonlinear_arith)
                requires 0 <= q < TAU, 0 < n <= MAX_RING_STEPS;
        }
        let a = (k as i64 * TAU) / steps as i64;
        out.push(a);
        k = k + 1;
    }
    out
}

impl EllipticalOrbit {
    /// Positions of the body at the true anomalies whose cosines and sines
    /// are `rots`, on the same ellipse as `position_at_true_anomaly`.
    pub fn orbit_ring(&self, reference_frame: &ReferenceFrame, rots: &Vec<Rot>) -> (r: Vec<Vec3>)
        requires
            self.wf(),
            self@.rots.is_some(),
            reference_frame.wf(),
            forall|k: int| 0 <= k < rots@.len() ==> (#[trigger] rots@[k]).wf(),
        ensures
            r@.len() == rots@.len(),
            forall|k: int| 0 <= k < rots@.len() ==>
                #[trigger] r@[k] == position_of(self@, *reference_frame, rots@[k]),
    {
        let mut out: Vec<Vec3> = Vec::new();
        let mut k: usize = 0;
        while k < rots.len()
            invariant
                self.wf(),
                self@.rots.is_some(),
                reference_frame.wf(),
                forall|i: int| 0 <= i < rots@.len() ==> (#[trigger] rots@[i]).wf(),
                k <= rots@.len(),
                out@.len() == k,
                forall|i: int| 0 <= i < k ==>
                    #[trigger] out@[i] == position_of(self@, *reference_frame, rots@[i]),
            decreases rots@.len() - k,
        {
            let p = self.position_at_true_anomaly(reference_frame, rots[k]);
            out.push(p);
            k = k + 1;
        }
        out
    }
}

/// `v` scaled by the length `r`.
fn scale(v: Vec3, r: i64) -> (out: Vec3)
    requires
        unit_bounded(v),
        0 <= r <= 2 * MAX_AXIS,
    ensures
        out == scaled(v, r as int),
        offset_bounded(out),
{
    proof { lemma_unit_coords(v); }
    let x = scale_coord(v.x, r);
    let y = scale_coord(v.y, r);
    let z = scale_coord(v.z, r);
    Vec3 { x, y, z }
}

/// One coordinate of a scaled direction.
fn scale_coord(c: i64, r: i64) -> (out: i64)
    requires
        -SCALE <= c <= SCALE,
        0 <= r <= 2 * MAX_AXIS,
    ensures
        out == tdiv(c * r, SCALE as int),
        -MAX_OFFSET <= out <= MAX_OFFSET,
{
    let ghost k: int = SCALE as int;
    let ghost m: int = 2 * MAX_AXIS;
    proof {
        assert(-k * m <= c * r <= k * m) by (nonlinear_arith)
            requires -k <= c <= k, 0 <= r <= m, k > 0;
        assert(-0x1_0000_0000_0000_0000_0000_0000 <= (c as int) * (r as int)
            <= 0x1_0000_0000_0000_0000_0000_0000) by (nonlinear_arith)
            requires -1_000_000_000 <= c <= 1_000_000_000, 0 <= r <= 0x0200_0000_0000_0000;
    }
    let n: i128 = c as i128 * r as i128;
    let q = div_trunc(n, SCALE as i128);
    proof {
        assert(n * n <= (k * m) * (k * m)) by (nonlinear_arith)
            requires -k * m <= n <= k * m, k > 0, m > 0;
        assert(q * q <= m * m) by (nonlinear_arith)
            requires q * q * (k * k) <= n * n, n * n <= (k * m) * (k * m), k > 0;
        assert(-m <= q <= m) by (nonlinear_arith)
            requires q * q <= m * m, m > 0;
    }
    q as i64
}

/// Cross product of two unit-bounded directions.
fn cross_exec(a: Vec3, b: Vec3) -> (out: Vec3)
    requires
        unit_bounded(a),
        unit_bounded(b),
    ensures
        out == cross(a, b),
        offset_bounded(out),
{
    proof {
        lemma_unit_coords(a);
        lemma_unit_coords(b);
    }
    let x = cross_coord(a.y, b.z, a.z, b.y);
    let y = cross_coord(a.z, b.x, a.x, b.z);
    let z = cross_coord(a.x, b.y, a.y, b.x);
    Vec3 { x, y, z }
}

/// `(p·q - r·s) / SCALE`, rounded toward zero, for parts within one unit.
fn cross_coord(p: i64, q: i64, r: i64, s: i64) -> (out: i64)
    requires
        -SCALE <= p <= SCALE,
        -SCALE <= q <= SCALE,
        -SCALE <= r <= SCALE,
        -SCALE <= s <= SCALE,
    ensures
        out == tdiv(p * q - r * s, SCALE as int),
        -MAX_OFFSET <= out <= MAX_OFFSET,
{
    let ghost k: int = SCALE as int;
    proof {
        assert(-k * k <= p * q <= k * k) by (nonlinear_arith)
            requires -k <= p <= k, -k <= q <= k, k > 0;
        assert(-k * k <= r * s <= k * k) by (nonlinear_arith)
            requires -k <= r <= k, -k <= s <= k, k > 0;
    }
    let n: i128 = p as i128 * q as i128 - r as i128 * s as i128;
    let d = div_trunc(n, SCALE as i128);
    proof {
        let m = 2 * k;
        assert(n * n <= (k * m) * (k * m)) by (nonlinear_arith)
            requires -k * m <= n <= k * m, k > 0, m > 0;
        assert(d * d <= m * m) by (nonlinear_arith)
            requires d * d * (k * k) <= n * n, n * n <= (k * m) * (k * m), k > 0;
        assert(-m <= d <= m) by (nonlinear_arith)
            requires d * d <= m * m, m > 0;
    }
    d as i64
}

} // verus!
