use vstd::prelude::*;
use crate::fixed::{div_floor, div_trunc, fx, fx_mul, is_isqrt, isqrt, sqrt_floor, tdiv, Rot, SCALE, TAU};

verus! {

/// The largest semi-major axis the library accepts, so that every radius and
/// position it computes fits in an `i64`.
pub const MAX_AXIS: i64 = 0x0100_0000_0000_0000;

/// `a·(1-e²) / (1 + e·cos θ)` in fixed point, rounded down, for the cosine `c`.
pub open spec fn radius_of(a: int, e: int, c: int) -> int {
    (a * (SCALE * SCALE - e * e)) / (SCALE * SCALE + e * c)
}

/// Periapsis distance `a·(1-e)`, rounded down.
pub open spec fn periapsis_of(a: int, e: int) -> int {
    (a * (SCALE - e)) / (SCALE as int)
}

/// Apoapsis distance `a·(1+e)`, rounded down.
pub open spec fn apoapsis_of(a: int, e: int) -> int {
    (a * (SCALE + e)) / (SCALE as int)
}

/// Shape parameters that the library accepts: `0 < a <= MAX_AXIS`, `0 <= e < 1`.
pub open spec fn valid_shape(a: int, e: int) -> bool {
    0 < a <= MAX_AXIS && 0 <= e < SCALE
}

/// Distance from the focus at the true anomaly whose cosine and sine are `theta`.
pub fn radius_at_true_anomaly(semi_major_axis: i64, eccentricity: i64, theta: Rot) -> (r: i64)
    requires
        valid_shape(semi_major_axis as int, eccentricity as int),
        theta.wf(),
    ensures
        r == radius_of(semi_major_axis as int, eccentricity as int, theta.cos as int),
        0 <= r <= 2 * semi_major_axis,
{
    let a = semi_major_axis as i128;
    let e = eccentricity as i128;
    let s = SCALE as i128;
    let c = theta.cos as i128;
    proof {
        theta.lemma_parts_bounded();
        assert(0 <= e * e < s * s) by (nonlinear_arith)
            requires 0 <= e < s;
        assert(0 <= a * (s * s - e * e) <= a * (s * s)) by (nonlinear_arith)
            requires 0 < a <= MAX_AXIS, 0 <= e < s, s == SCALE;
        assert(s * (s - e) <= s * s + e * c) by (nonlinear_arith)
            requires 0 <= e < s, -s <= c <= s;
        assert(0 < s * (s - e)) by (nonlinear_arith)
            requires 0 <= e < s;
        assert(-s * s <= e * c <= s * s) by (nonlinear_arith)
            requires 0 <= e < s, -s <= c <= s;
    }
    let num: i128 = a * (s * s - e * e);
    let den: i128 = s * s + e * c;
    let r = div_floor(num, den);
    proof {
        // r * den <= num = a (s - e)(s + e) <= 2a * s (s - e) <= 2a * den
        vstd::arithmetic::div_mod::lemma_fundamental_div_mod(num as int, den as int);
        vstd::arithmetic::div_mod::lemma_mod_bound(num as int, den as int);
        vstd::arithmetic::div_mod::lemma_div_pos_is_pos(num as int, den as int);
        assert(num <= 2 * a * den) by (nonlinear_arith)
            requires num == a * (s * s - e * e), s * (s - e) <= den, 0 < a, 0 <= e < s;
        assert(r <= 2 * a) by (nonlinear_arith)
            requires r * den <= num, num <= 2 * a * den, den > 0, r == num / den;
    }
    r as i64
}

/// Distance from the focus at periapsis.
pub fn periapsis_radius(semi_major_axis: i64, eccentricity: i64) -> (r: i64)
    requires
        valid_shape(semi_major_axis as int, eccentricity as int),
    ensures
        r == periapsis_of(semi_major_axis as int, eccentricity as int),
        0 <= r <= semi_major_axis,
{
    let a = semi_major_axis as i128;
    let e = eccentricity as i128;
    proof {
        assert(0 <= a * (SCALE - e) <= a * SCALE) by (nonlinear_arith)
            requires 0 < a <= MAX_AXIS, 0 <= e < SCALE;
        vstd::arithmetic::div_mod::lemma_div_is_ordered(a * (SCALE - e), a * SCALE, SCALE as int);
        vstd::arithmetic::div_mod::lemma_div_multiples_vanish(a as int, SCALE as int);
        vstd::arithmetic::div_mod::lemma_div_pos_is_pos(a * (SCALE - e), SCALE as int);
    }
    (a * (SCALE as i128 - e) / SCALE as i128) as i64
}

/// Distance from the focus at apoapsis.
pub fn apoapsis_radius(semi_major_axis: i64, eccentricity: i64) -> (r: i64)
    requires
        valid_shape(semi_major_axis as int, eccentricity as int),
    ensures
        r == apoapsis_of(semi_major_axis as int, eccentricity as int),
        semi_major_axis <= r <= 2 * semi_major_axis,
{
    let a = semi_major_axis as i128;
    let e = eccentricity as i128;
    proof {
        assert(a * SCALE <= a * (SCALE + e) <= a * (2 * SCALE)) by (nonlinear_arith)
            requires 0 < a <= MAX_AXIS, 0 <= e < SCALE;
        vstd::arithmetic::div_mod::lemma_div_is_ordered(a * SCALE, a * (SCALE + e), SCALE as int);
        vstd::arithmetic::div_mod::lemma_div_is_ordered(a * (SCALE + e), a * (2 * SCALE), SCALE as int);
        vstd::arithmetic::div_mod::lemma_div_multiples_vanish(a as int, SCALE as int);
        vstd::arithmetic::div_mod::lemma_div_multiples_vanish(2 * a, SCALE as int);
        assert(a * (2 * SCALE) == SCALE * (2 * a)) by (nonlinear_arith);
    }
    (a * (SCALE as i128 + e) / SCALE as i128) as i64
}

/// At true anomaly zero the body is at periapsis, `a(1-e)` from the focus; at
/// true anomaly π it is at apoapsis, `a(1+e)` from the focus.
pub proof fn lemma_apsides(a: int, e: int)
    requires
        valid_shape(a, e),
    ensures
        radius_of(a, e, SCALE as int) == periapsis_of(a, e),
        radius_of(a, e, -SCALE) == apoapsis_of(a, e),
{
    let s = SCALE as int;
    assert(a * (s * s - e * e) == (s + e) * (a * (s - e))) by (nonlinear_arith);
    assert(s * s + e * s == (s + e) * s) by (nonlinear_arith);
    vstd::arithmetic::div_mod::lemma_div_multiples_vanish_quotient(s + e, a * (s - e), s);
    assert(a * (s * s - e * e) == (s - e) * (a * (s + e))) by (nonlinear_arith);
    assert(s * s + e * (-s) == (s - e) * s) by (nonlinear_arith);
    vstd::arithmetic::div_mod::lemma_div_multiples_vanish_quotient(s - e, a * (s + e), s);
}

/// On a circular orbit the distance from the focus is the semi-major axis at
/// every true anomaly.
pub proof fn lemma_circle_radius_constant(a: int, c: int)
    requires
        0 < a,
    ensures
        radius_of(a, 0, c) == a,
{
    let s = SCALE as int;
    assert(a * (s * s - 0 * 0) == (s * s) * a) by (nonlinear_arith);
    assert(s * s + 0 * c == s * s) by (nonlinear_arith);
    vstd::arithmetic::div_mod::lemma_div_multiples_vanish(a, s * s);
}

/// Mean anomaly `n·(t - t₀) mod 2π` with `n = 2π / period`, in fixed point:
/// the fraction of the period elapsed since periapsis, times a full turn.
pub open spec fn mean_anomaly_of(period: int, time: int, time_at_periapsis: int) -> int {
    ((time - time_at_periapsis) % period) * TAU / period
}

/// Mean anomaly at `time` for an orbit of `period` that passed periapsis at
/// `time_at_periapsis`; all three are fixed-point seconds.
pub fn mean_anomaly_at_time(period: i64, time: i64, time_at_periapsis: i64) -> (r: i64)
    requires
        period > 0,
    ensures
        r == mean_anomaly_of(period as int, time as int, time_at_periapsis as int),
        0 <= r < TAU,
{
    let p = period as i128;
    let dt: i128 = time as i128 - time_at_periapsis as i128;
    let q = div_floor(dt, p);
    proof {
        vstd::arithmetic::div_mod::lemma_fundamental_div_mod(dt as int, p as int);
        vstd::arithmetic::div_mod::lemma_mod_bound(dt as int, p as int);
        assert(q * p == dt - (dt as int) % (p as int)) by (nonlinear_arith)
            requires dt == p * q + (dt as int) % (p as int);
    }
    let m: i128 = dt - q * p;
    proof {
        assert(0 <= m * TAU < p * TAU) by (nonlinear_arith)
            requires 0 <= m < p;
        vstd::arithmetic::div_mod::lemma_div_pos_is_pos(m * TAU, p as int);
        assert((m * TAU) / (p as int) < TAU) by {
            vstd::arithmetic::div_mod::lemma_div_is_ordered(m * TAU, p * TAU - 1, p as int);
            vstd::arithmetic::div_mod::lemma_fundamental_div_mod(p * TAU - 1, p as int);
            vstd::arithmetic::div_mod::lemma_mod_bound(p * TAU - 1, p as int);
            let qq = (p * TAU - 1) / (p as int);
            assert(qq < TAU) by (nonlinear_arith)
                requires qq * p <= p * TAU - 1, p > 0;
        }
    }
    (m * TAU as i128 / p) as i64
}

/// Mean orbital speed `2π·a / period`, the speed on a circle of radius `a`.
pub fn get_orbital_velocity(semi_major_axis: i64, period: i64) -> (r: i128)
    requires
        0 < semi_major_axis <= MAX_AXIS,
        period > 0,
    ensures
        r == TAU * semi_major_axis / (period as int),
{
    proof {
        assert(0 < TAU * semi_major_axis <= TAU * MAX_AXIS) by (nonlinear_arith)
            requires 0 < semi_major_axis <= MAX_AXIS;
    }
    TAU as i128 * semi_major_axis as i128 / period as i128
}

/// Mean angular motion `2π / period`, in fixed-point radians per second.
pub fn mean_angular_motion(period: i64) -> (r: i64)
    requires
        period > 0,
    ensures
        r == TAU * SCALE / (period as int),
{
    proof {
        vstd::arithmetic::div_mod::lemma_div_is_ordered_by_denominator(TAU * SCALE, 1, period as int);
        vstd::arithmetic::div_mod::lemma_div_pos_is_pos(TAU * SCALE, period as int);
    }
    ((TAU as i128 * SCALE as i128) / period as i128) as i64
}

/// `E - e·sin E`: the mean anomaly that belongs to the eccentric anomaly
/// `eccentric_anomaly`, whose cosine and sine are `rot`.
pub fn calc_eccentric(eccentric_anomaly: i64, rot: Rot, eccentricity: i64) -> (r: i64)
    requires
        rot.wf(),
        -0x2000_0000_0000_0000 <= eccentricity <= 0x2000_0000_0000_0000,
        -0x2000_0000_0000_0000 <= eccentric_anomaly <= 0x2000_0000_0000_0000,
    ensures
        r == eccentric_anomaly - fx(eccentricity as int, rot.sin as int),
{
    proof {
        rot.lemma_parts_bounded();
        let e = eccentricity as int;
        let s = rot.sin as int;
        let m = 0x2000_0000_0000_0000int;
        let k = SCALE as int;
        assert(-m * k <= e * s <= m * k) by (nonlinear_arith)
            requires -m <= e <= m, -k <= s <= k, k > 0, m > 0;
        vstd::arithmetic::div_mod::lemma_div_is_ordered(-m * k, e * s, k);
        vstd::arithmetic::div_mod::lemma_div_is_ordered(e * s, m * k, k);
        vstd::arithmetic::div_mod::lemma_div_multiples_vanish(-m, k);
        vstd::arithmetic::div_mod::lemma_div_multiples_vanish(m, k);
        assert(-m * k == k * (-m)) by (nonlinear_arith);
        assert(m * k == k * m) by (nonlinear_arith);
    }
    (eccentric_anomaly as i128 - fx_mul(eccentricity, rot.sin)) as i64
}

/// Direction of the true anomaly for the eccentric anomaly `ecc`:
/// `cos θ = (cos E - e) / (1 - e·cos E)` and
/// `sin θ = sqrt(1 - e²)·sin E / (1 - e·cos E)`, each rounded toward zero.
/// This is the angle `2·atan(sqrt((1+e)/(1-e))·tan(E/2))` given by its
/// cosine and sine.
pub open spec fn true_anomaly_of(e: int, ecc: Rot) -> Rot {
    let c = ecc.cos as int;
    let s = ecc.sin as int;
    let d = SCALE * SCALE - e * c;
    Rot {
        cos: tdiv(SCALE * SCALE * (c - e), d) as i64,
        sin: tdiv(SCALE * root_one_minus_sq(e) * s, d) as i64,
    }
}

/// `sqrt(1 - e²)` in fixed point, rounded down.
pub open spec fn root_one_minus_sq(e: int) -> int {
    sqrt_floor(SCALE * SCALE - e * e)
}

/// Direction of the true anomaly for the eccentric anomaly whose cosine and
/// sine are `eccentric_anomaly`.
pub fn calc_true_anomaly(eccentricity: i64, eccentric_anomaly: Rot) -> (r: Rot)
    requires
        0 <= eccentricity < SCALE,
        eccentric_anomaly.wf(),
    ensures
        r == true_anomaly_of(eccentricity as int, eccentric_anomaly),
        r.wf(),
{
    let s = SCALE as i128;
    let e = eccentricity as i128;
    let c = eccentric_anomaly.cos as i128;
    let sn = eccentric_anomaly.sin as i128;
    proof {
        eccentric_anomaly.lemma_parts_bounded();
        assert(0 <= s * s - e * e <= s * s) by (nonlinear_arith)
            requires 0 <= e < s;
    }
    let radicand: i128 = s * s - e * e;
    let qu = isqrt(radicand as u128);
    proof {
        assert(radicand as u128 as int == radicand as int);
        assert(is_isqrt(radicand as int, qu as int));
        assert(qu <= s) by (nonlinear_arith)
            requires qu * qu <= radicand, radicand <= s * s, s > 0;
    }
    let q = qu as i128;
    proof {
        assert(sn * sn <= s * s - c * c);
        assert(0 <= sn * sn) by (nonlinear_arith);
        assert(0 <= q * q) by (nonlinear_arith);
        assert(q <= s) by (nonlinear_arith)
            requires q * q <= s * s - e * e, q >= 0, s > 0, 0 <= e;
        assert(s * (s - e) <= s * s - e * c) by (nonlinear_arith)
            requires 0 <= e < s, -s <= c <= s;
        assert(0 < s * (s - e)) by (nonlinear_arith)
            requires 0 <= e < s;
        assert(-s * s <= e * c <= s * s) by (nonlinear_arith)
            requires 0 <= e < s, -s <= c <= s;
        assert(-2 * s * s * s <= s * s * (c - e) <= 2 * s * s * s) by (nonlinear_arith)
            requires 0 <= e < s, -s <= c <= s;
        assert(-s * s * s <= s * q * sn <= s * s * s) by (nonlinear_arith)
            requires 0 <= q <= s, -s <= sn <= s;
    }
    let d: i128 = s * s - e * c;
    let x: i128 = s * s * (c - e);
    let y: i128 = s * q * sn;
    let tc = div_trunc(x, d);
    let ts = div_trunc(y, d);
    proof {
        let ss = s as int;
        let dd = d as int;
        assert(q * q * (sn * sn) <= (s * s - e * e) * (s * s - c * c)) by (nonlinear_arith)
            requires 0 <= q * q <= s * s - e * e, 0 <= sn * sn <= s * s - c * c;
        assert(ss * ss * ((c - e) * (c - e)) + (s * s - e * e) * (s * s - c * c) == dd * dd)
            by (nonlinear_arith)
            requires dd == s * s - e * c, ss == s;
        let k = ss * ss;
        let u = ss * ss * ((c - e) * (c - e));
        let v = q * q * (sn * sn);
        let w = (s * s - e * e) * (s * s - c * c);
        assert(x * x == k * u) by (nonlinear_arith)
            requires x == s * s * (c - e), ss == s, k == ss * ss, u == ss * ss * ((c - e) * (c - e));
        assert(y * y == k * v) by (nonlinear_arith)
            requires y == s * q * sn, ss == s, k == ss * ss, v == q * q * (sn * sn);
        assert(k * v <= k * w) by (nonlinear_arith)
            requires v <= w, k >= 0;
        assert(k * u + k * w == k * (dd * dd)) by (nonlinear_arith)
            requires u + w == dd * dd;
        assert(x * x + y * y <= ss * ss * (dd * dd));
        assert(tc * tc + ts * ts <= ss * ss) by (nonlinear_arith)
            requires tc * tc * (dd * dd) <= x * x, ts * ts * (dd * dd) <= y * y,
                x * x + y * y <= ss * ss * (dd * dd), dd > 0;
        assert(-ss <= tc <= ss && -ss <= ts <= ss) by (nonlinear_arith)
            requires tc * tc + ts * ts <= ss * ss, ss > 0;
        assert(q == root_one_minus_sq(e as int));
    }
    Rot { cos: tc as i64, sin: ts as i64 }
}

/// The true anomaly is zero where the eccentric anomaly is zero, and π where
/// the eccentric anomaly is π.
pub proof fn lemma_true_anomaly_symmetry(e: int)
    requires
        0 <= e < SCALE,
    ensures
        true_anomaly_of(e, Rot { cos: SCALE as i64, sin: 0 }) == (Rot { cos: SCALE as i64, sin: 0 }),
        true_anomaly_of(e, Rot { cos: -SCALE as i64, sin: 0 }) == (Rot { cos: -SCALE as i64, sin: 0 }),
{
    let s = SCALE as int;
    assert(s * s * (s - e) == (s - e) * (s * s)) by (nonlinear_arith);
    assert(s * s - e * s == (s - e) * s) by (nonlinear_arith);
    vstd::arithmetic::div_mod::lemma_div_multiples_vanish_quotient(s - e, s * s, s);
    vstd::arithmetic::div_mod::lemma_div_multiples_vanish(s, s);
    assert(s * s * (-s - e) == -((s + e) * (s * s))) by (nonlinear_arith);
    assert(s * s - e * (-s) == (s + e) * s) by (nonlinear_arith);
    vstd::arithmetic::div_mod::lemma_div_multiples_vanish_quotient(s + e, s * s, s);
    assert(s * root_one_minus_sq(e) * 0 == 0) by (nonlinear_arith);
    assert(0 < (s - e) * s) by (nonlinear_arith)
        requires 0 <= e < s;
    vstd::arithmetic::div_mod::lemma_div_of0((s - e) * s);
    vstd::arithmetic::div_mod::lemma_div_of0((s + e) * s);
}

} // verus!
