use kepler::{
    apoapsis_radius, calc_eccentric, calc_true_anomaly, get_orbital_velocity, mean_angular_motion,
    mean_anomaly_at_time, periapsis_radius, radius_at_true_anomaly, ring_angles, Ellipse,
    EllipticalOrbit, KeplerSolver, OrbitError, OrbitRanges, OrbitRng, OrbitVisualizerPlugin,
    PlaneRots, ReferenceFrame, Rot, SolverOutcome, SolverStep, Vec3, WorldGeneratorPlugin,
    WorldUpdaterPlugin, EPSILON, MAX_ITERATIONS, PI, SCALE, TAU,
};

/// The fixed-point cosine and sine of `angle` radians.
fn rot(angle: f64) -> Rot {
    let mut c = (angle.cos() * SCALE as f64) as i64;
    let mut s = (angle.sin() * SCALE as f64) as i64;
    loop {
        if let Some(r) = Rot::new(c, s) {
            return r;
        }
        c -= c.signum();
        s -= s.signum();
    }
}

fn radians(fixed: i64) -> f64 {
    fixed as f64 / SCALE as f64
}

/// Runs the solver to its end, evaluating each estimate with `f64` trig.
fn solve(mean: i64, e: i64) -> SolverOutcome {
    let mut solver = KeplerSolver::new(mean, e).unwrap();
    loop {
        let r = rot(radians(solver.estimate()));
        if let SolverStep::Done(o) = solver.step(r) {
            return o;
        }
    }
}

fn residual(mean: i64, e: i64, ecc: i64) -> i64 {
    let m = kepler::normalize_angle(mean);
    m - calc_eccentric(ecc, rot(radians(ecc)), e)
}

#[test]
fn test() {
    let e = 5 * SCALE;
    let big_e = 10 * SCALE;
    let result = calc_eccentric(big_e, rot(10.0), e);
    // 10 - 5·sin(10) = 12.7201055544468...; sin(10) enters as -0.544021110
    assert_eq!(result, 12_720_105_550);
    assert!((radians(result) - 12.720105554446849).abs() < 1e-8);
    println!("Result: {:?}", result);
}

#[test]
fn circle_radius_is_constant() {
    for k in 0..12 {
        let theta = rot(k as f64 * 0.5);
        assert_eq!(radius_at_true_anomaly(SCALE, 0, theta), SCALE);
    }
}

#[test]
fn apsides_of_half_eccentric_orbit() {
    let a = 2 * SCALE;
    let e = SCALE / 2;
    assert_eq!(periapsis_radius(a, e), SCALE);
    assert_eq!(apoapsis_radius(a, e), 3 * SCALE);
    assert_eq!(radius_at_true_anomaly(a, e, Rot::new(SCALE, 0).unwrap()), SCALE);
    assert_eq!(radius_at_true_anomaly(a, e, Rot::new(-SCALE, 0).unwrap()), 3 * SCALE);
}

#[test]
fn apsides_match_radius_formula() {
    for (a, e) in [(SCALE, 300_000_000), (7 * SCALE + 3, 999_999_999), (12_345, 1)] {
        assert_eq!(radius_at_true_anomaly(a, e, Rot::new(SCALE, 0).unwrap()), periapsis_radius(a, e));
        assert_eq!(radius_at_true_anomaly(a, e, Rot::new(-SCALE, 0).unwrap()), apoapsis_radius(a, e));
    }
}

#[test]
fn radius_at_quarter_turn_is_semi_latus_rectum() {
    // a(1 - e²) = 2 · 0.75
    assert_eq!(radius_at_true_anomaly(2 * SCALE, SCALE / 2, Rot::new(0, SCALE).unwrap()), 1_500_000_000);
}

#[test]
fn solver_converges_for_moderate_eccentricity() {
    let e = 300_000_000;
    let m = 1_570_800_000;
    let first = solve(m, e);
    match first {
        SolverOutcome::Converged { eccentric_anomaly, iterations } => {
            assert!(iterations <= MAX_ITERATIONS);
            assert!(residual(m, e, eccentric_anomaly).abs() <= EPSILON);
            // E - 0.3 sin E = 1.5708 at E = 1.858472
            assert!((radians(eccentric_anomaly) - 1.858471797).abs() < 2e-6);
        }
        other => panic!("no convergence: {:?}", other),
    }
    assert_eq!(solve(m, e), first);
}

#[test]
fn solver_round_trip_over_turn() {
    for e in [0, 100_000_000, 500_000_000, 900_000_000, 990_000_000] {
        for k in 0..16 {
            let m = k * (TAU / 16);
            match solve(m, e) {
                SolverOutcome::Converged { eccentric_anomaly, .. } => {
                    assert!(residual(m, e, eccentric_anomaly).abs() <= EPSILON);
                }
                other => panic!("e = {}, M = {}: {:?}", e, m, other),
            }
        }
    }
}

#[test]
fn solver_reduces_mean_anomaly() {
    let e = 200_000_000;
    assert_eq!(solve(1_000_000_000 + 3 * TAU, e), solve(1_000_000_000, e));
    assert_eq!(solve(1_000_000_000 - TAU, e), solve(1_000_000_000, e));
}

#[test]
fn solver_reports_no_convergence() {
    let mut solver = KeplerSolver::new(2 * SCALE, 500_000_000).unwrap();
    // a caller whose sine flips between +1 and -1 keeps the residual at 2e
    let up = Rot::new(0, SCALE).unwrap();
    let down = Rot::new(0, -SCALE).unwrap();
    let mut steps = 0;
    let outcome = loop {
        let r = if steps % 2 == 0 { up } else { down };
        steps += 1;
        if let SolverStep::Done(o) = solver.step(r) {
            break o;
        }
    };
    let bogus = up;
    match outcome {
        SolverOutcome::NotConverged { best_estimate, iterations, residual } => {
            assert_eq!(iterations, MAX_ITERATIONS);
            assert_eq!(steps, MAX_ITERATIONS);
            assert_eq!(best_estimate, 2 * SCALE);
            assert_eq!(residual, 500_000_000);
        }
        other => panic!("unexpected {:?}", other),
    }
    assert_eq!(solver.step(bogus), SolverStep::Done(outcome));
    assert_eq!(solver.outcome(), Some(outcome));
}

#[test]
fn solver_rejects_parabolic_eccentricity() {
    assert!(matches!(KeplerSolver::new(SCALE, SCALE), Err(OrbitError::InvalidElements)));
    assert!(matches!(KeplerSolver::new(SCALE, -1), Err(OrbitError::InvalidElements)));
}

#[test]
fn construction_rejects_parabolic_orbit() {
    let r = EllipticalOrbit::new(SCALE, SCALE, 0, 0, 0, 0, SCALE);
    assert!(matches!(r, Err(OrbitError::InvalidElements)));
    assert!(matches!(EllipticalOrbit::new(0, 0, 0, 0, 0, 0, SCALE), Err(OrbitError::InvalidElements)));
    assert!(matches!(EllipticalOrbit::new(0, SCALE, 0, 0, 0, 0, 0), Err(OrbitError::InvalidElements)));
    assert!(EllipticalOrbit::new(SCALE - 1, SCALE, 0, 0, 0, 0, 1).is_ok());
}

#[test]
fn true_anomaly_at_apsides() {
    for e in [0, 300_000_000, 999_999_999] {
        let zero = Rot::new(SCALE, 0).unwrap();
        let half = Rot::new(-SCALE, 0).unwrap();
        assert_eq!(calc_true_anomaly(e, zero), zero);
        assert_eq!(calc_true_anomaly(e, half), half);
    }
}

#[test]
fn true_anomaly_matches_half_angle_formula() {
    let e = 300_000_000;
    let big_e = 1.2f64;
    let t = calc_true_anomaly(e, rot(big_e));
    let expected = 2.0 * (((1.3f64) / 0.7).sqrt() * (big_e / 2.0).tan()).atan();
    assert!((radians(t.cos) - expected.cos()).abs() < 1e-6);
    assert!((radians(t.sin) - expected.sin()).abs() < 1e-6);
}

#[test]
fn mean_anomaly_wraps_by_period() {
    assert_eq!(mean_anomaly_at_time(10 * SCALE, 25 * SCALE, 0), TAU / 2);
    assert_eq!(mean_anomaly_at_time(10 * SCALE, -5 * SCALE, 0), TAU / 2);
    assert_eq!(mean_anomaly_at_time(10 * SCALE, 30 * SCALE, 0), 0);
}

#[test]
fn ellipse_area_and_axes() {
    let el = Ellipse::from_semi(2 * SCALE, SCALE);
    assert_eq!(el.area(), 6_283_185_306);
    assert_eq!(el.major_axis(), 4 * SCALE);
    assert_eq!(el.minor_axis(), 2 * SCALE);
    let el = Ellipse::from_semi(5 * SCALE, 4 * SCALE);
    assert_eq!(el.linear_eccentricity(), 3 * SCALE);
    assert_eq!(el.eccentricity(), 600_000_000);
    assert_eq!(el.semi_latus_rectum(), 3_200_000_000);
    assert_eq!(el.focal_parameter(), Some(5_333_333_333));
    assert_eq!(Ellipse::from_semi(SCALE, SCALE).focal_parameter(), None);
}

#[test]
fn ellipse_eccentricity_round_trip() {
    for e in [100_000_000, 300_000_000, 500_000_000, 900_000_000] {
        for a in [SCALE, 3 * SCALE, 100 * SCALE] {
            let b = Ellipse::get_semi_minor_axis(a, e);
            let back = Ellipse::get_eccentricity(a, b);
            assert!((back - e).abs() <= 1_000, "a = {}, e = {}, back = {}", a, e, back);
        }
    }
}

#[test]
fn ellipse_set_eccentricity_keeps_major_axis() {
    let mut el = Ellipse::from_major(2 * SCALE, 0);
    assert_eq!(el.semi_minor(), 2 * SCALE);
    el.set_eccentricity(600_000_000);
    assert_eq!(el.semi_major(), 2 * SCALE);
    assert_eq!(el.semi_minor(), 1_600_000_000);
    assert_eq!(el.perimeter_point(Rot::new(0, SCALE).unwrap()), (0, 1_600_000_000));
}

fn flat_orbit(e: i64, a: i64) -> EllipticalOrbit {
    let mut o = EllipticalOrbit::new(e, a, 0, 0, 0, 0, 10 * SCALE).unwrap();
    let zero = Rot::new(SCALE, 0).unwrap();
    o.refresh_orientation(PlaneRots { node: zero, inclination: zero, periapsis: zero });
    o
}

#[test]
fn position_in_unrotated_plane() {
    let o = flat_orbit(SCALE / 2, 2 * SCALE);
    let frame = ReferenceFrame::identity();
    // periapsis lies along the forward axis at a(1 - e)
    assert_eq!(o.position_at_true_anomaly(&frame, Rot::new(SCALE, 0).unwrap()), Vec3 { x: 0, y: 0, z: SCALE });
    // apoapsis opposite at a(1 + e)
    assert_eq!(o.position_at_true_anomaly(&frame, Rot::new(-SCALE, 0).unwrap()), Vec3 { x: 0, y: 0, z: -3 * SCALE });
    assert_eq!(o.orbital_normal(&frame), Vec3 { x: 0, y: SCALE, z: 0 });
    assert_eq!(o.apoapsis_dir(&frame), Vec3 { x: 0, y: 0, z: -SCALE });
}

#[test]
fn orientation_follows_node_then_inclination() {
    let mut o = EllipticalOrbit::new(0, SCALE, 0, 0, 0, 0, SCALE).unwrap();
    let zero = Rot::new(SCALE, 0).unwrap();
    let quarter = Rot::new(0, SCALE).unwrap();
    o.refresh_orientation(PlaneRots { node: quarter, inclination: quarter, periapsis: zero });
    let frame = ReferenceFrame::identity();
    // node a quarter turn about up: forward turns to right
    assert_eq!(o.ascending_dir(&frame), Vec3 { x: SCALE, y: 0, z: 0 });
    assert_eq!(o.descending_dir(&frame), Vec3 { x: -SCALE, y: 0, z: 0 });
    // tilting a quarter turn about the node (now along right) turns up to forward
    assert_eq!(o.orbital_normal(&frame), Vec3 { x: 0, y: 0, z: SCALE });
    assert_eq!(o.periapsis_dir(&frame), Vec3 { x: SCALE, y: 0, z: 0 });
    let (right, up, forward) = o.orientation(&frame);
    assert_eq!(up, Vec3 { x: 0, y: 0, z: SCALE });
    assert_eq!(forward, Vec3 { x: SCALE, y: 0, z: 0 });
    assert_eq!(right, Vec3 { x: 0, y: SCALE, z: 0 });
}

#[test]
fn setters_drop_cached_orientation() {
    let mut o = flat_orbit(0, SCALE);
    assert!(o.rotations().is_some());
    o.set_inclination(TAU + 5);
    assert_eq!(o.inclination(), 5);
    assert!(o.rotations().is_none());
    assert_eq!(o.set_eccentricity(SCALE), Err(OrbitError::InvalidElements));
    assert_eq!(o.eccentricity(), 0);
    assert_eq!(o.set_eccentricity(600_000_000), Ok(()));
    assert_eq!(o.semiminor_axis(), 800_000_000);
    assert_eq!(o.set_semi_major_axis(0), Err(OrbitError::InvalidElements));
    assert_eq!(o.set_period(0), Err(OrbitError::InvalidElements));
    assert_eq!(o.set_semi_major_axis(2 * SCALE), Ok(()));
    assert_eq!(o.semiminor_axis(), 1_600_000_000);
}

#[test]
fn orbit_ring_has_distinct_closed_samples() {
    let angles = ring_angles(36);
    assert_eq!(angles.len(), 36);
    assert_eq!(angles[0], 0);
    assert_eq!(angles[18], PI);
    for w in angles.windows(2) {
        assert!(w[0] < w[1]);
    }
    let o = flat_orbit(300_000_000, 2 * SCALE);
    let frame = ReferenceFrame::identity();
    let rots: Vec<Rot> = angles.iter().map(|a| rot(radians(*a))).collect();
    let ring = o.orbit_ring(&frame, &rots);
    assert_eq!(ring.len(), 36);
    for i in 0..36 {
        for j in (i + 1)..36 {
            assert_ne!(ring[i], ring[j]);
        }
        assert_eq!(ring[i], o.position_at_true_anomaly(&frame, rots[i]));
    }
    let lines = OrbitVisualizerPlugin::orbit_lines(&ring);
    assert_eq!(lines.len(), 36);
    assert_eq!(lines[0], (ring[0], ring[1]));
    assert_eq!(lines[35], (ring[35], ring[0]));
    // every segment, the closing one included, is short next to the orbit
    for (a, b) in lines {
        let d = (((a.x - b.x) as f64).powi(2) + ((a.z - b.z) as f64).powi(2)).sqrt();
        assert!(d < 0.5 * SCALE as f64);
    }
}

#[test]
fn orbit_lines_of_empty_and_single_rings() {
    assert!(OrbitVisualizerPlugin::orbit_lines(&Vec::new()).is_empty());
    let p = Vec3 { x: 1, y: 2, z: 3 };
    assert_eq!(OrbitVisualizerPlugin::orbit_lines(&vec![p]), vec![(p, p)]);
}

#[test]
fn apsis_nodes_of_shifted_frame() {
    let o = flat_orbit(SCALE / 2, 2 * SCALE);
    let mut frame = ReferenceFrame::identity();
    frame.translation = Vec3 { x: 5 * SCALE, y: -SCALE, z: 0 };
    assert_eq!(o.periapsis_node(&frame), Vec3 { x: 5 * SCALE, y: -SCALE, z: SCALE });
    assert_eq!(o.apoapsis_node(&frame), Vec3 { x: 5 * SCALE, y: -SCALE, z: -3 * SCALE });
}

#[test]
fn speeds_and_mean_motion() {
    // 2π·1 m / 2π s = 1 m/s
    assert_eq!(get_orbital_velocity(SCALE, TAU), SCALE as i128);
    assert_eq!(get_orbital_velocity(2 * SCALE, SCALE), 2 * TAU as i128);
    assert_eq!(mean_angular_motion(TAU), SCALE);
    assert_eq!(mean_angular_motion(2 * SCALE), TAU / 2);
}

#[test]
fn seeded_generation_is_reproducible() {
    let mut a = OrbitRng::from_seed("KEPLER");
    let mut b = OrbitRng::from_seed("KEPLER");
    for _ in 0..20 {
        let x = a.draw(-5, 7);
        assert_eq!(x, b.draw(-5, 7));
        assert!((-5..7).contains(&x));
    }
    let mut c = OrbitRng::from_seed("KEPLER");
    let draws: Vec<i64> = (0..8).map(|_| c.draw(0, 1_000_000)).collect();
    assert!(draws.iter().any(|d| *d != draws[0]));
}

#[test]
fn random_orbits_lie_in_ranges() {
    let mut rng = OrbitRng::from_seed("orbits");
    for _ in 0..50 {
        let o = EllipticalOrbit::from_rand(&mut rng, OrbitRanges::any_orbit());
        assert!((0..SCALE).contains(&o.eccentricity()));
        assert!((SCALE / 2..=5 * SCALE / 2).contains(&o.semimajor_axis()));
        assert!((SCALE..60 * SCALE).contains(&o.period()));
        assert!((0..TAU).contains(&o.inclination()));
    }
}

#[test]
fn generated_world_has_planets_and_moons() {
    let mut rng = OrbitRng::from_seed("KEPLER");
    let world = WorldGeneratorPlugin::generate_world(&mut rng);
    assert_eq!(world.planets.len(), 3);
    for p in &world.planets {
        assert_eq!(p.moons.len(), 2);
        assert!(p.orbit.eccentricity() < SCALE / 10);
        assert!(p.orbit.inclination() < SCALE / 10);
    }
    let mut again = OrbitRng::from_seed("KEPLER");
    let world2 = WorldGeneratorPlugin::generate_world(&mut again);
    assert_eq!(world.planets[2].moons[1].period(), world2.planets[2].moons[1].period());
}

#[test]
fn cyclic_time_wraps() {
    assert_eq!(WorldUpdaterPlugin::get_cyclic_time(200_000_000, 10 * SCALE), 2 * SCALE);
    assert_eq!(WorldUpdaterPlugin::get_cyclic_time(SCALE, TAU + 7), 7);
    assert_eq!(WorldUpdaterPlugin::get_cyclic_time(SCALE, -1), TAU - 1);
}

#[test]
fn sphere_volume_and_mass() {
    assert_eq!(kepler::sphere_volume(SCALE), 4_188_790_204);
    assert_eq!(kepler::sphere_volume(0), 0);
    let body = kepler::OrbitalBody::from_sphere(SCALE / 2, SCALE, -300_000_000);
    assert_eq!(body.volume, 523_598_774);
    assert_eq!(body.mass, 523_598_774);
    assert_eq!(body.spin_velocity, -300_000_000);
    let heavy = kepler::OrbitalBody::from_sphere(SCALE / 2, 2 * SCALE, 0);
    assert_eq!(heavy.mass, 1_047_197_548);
}
