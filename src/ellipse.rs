use vstd::prelude::*;
use crate::anomaly::{root_one_minus_sq, MAX_AXIS};
use crate::fixed::{div_floor, fx, fx_mul, is_isqrt, isqrt, sqrt_floor, Rot, PI, SCALE};

verus! {

/// Semi-minor axis `a·sqrt(1 - e²)`, rounded down.
pub open spec fn semi_minor_of(a: int, e: int) -> int {
    a * root_one_minus_sq(e) / (SCALE as int)
}

/// Eccentricity `sqrt(1 - b²/a²)` of the ellipse with semi-axes `a` and `b`,
/// computed as `sqrt(a² - b²) / a`, rounded down.
pub open spec fn eccentricity_of(a: int, b: int) -> int {
    SCALE * sqrt_floor(a * a - b * b) / a
}

/// Linear eccentricity `sqrt(a² - b²)`, rounded down.
pub open spec fn linear_eccentricity_of(a: int, b: int) -> int {
    sqrt_floor(a * a - b * b)
}

/// Area `π·a·b`, each product rounded down.
pub open spec fn area_of(a: int, b: int) -> int {
    fx(fx(PI as int, a), b)
}

/// An ellipse centred on the origin, its major axis along `x`.
pub struct Ellipse {
    semi_major: i64,
    semi_minor: i64,
    eccentricity: i64,
}

/// The ellipse as a mathematical value.
pub struct EllipseView {
    pub semi_major: int,
    pub semi_minor: int,
    pub eccentricity: int,
}

impl View for Ellipse {
    type V = EllipseView;

    closed spec fn view(&self) -> EllipseView {
        EllipseView {
            semi_major: self.semi_major as int,
            semi_minor: self.semi_minor as int,
            eccentricity: self.eccentricity as int,
        }
    }
}

/// Axes ordered and within the accepted range (a very flat small ellipse
/// may round its semi-minor axis to zero), eccentricity in `[0, 1)`.
pub open spec fn ellipse_wf(v: EllipseView) -> bool {
    0 <= v.semi_minor <= v.semi_major && 0 < v.semi_major <= MAX_AXIS && 0 <= v.eccentricity < SCALE
}

/// `a·sqrt(1 - e²)` lies between zero and `a` for `e` in `[0, 1)`.
proof fn lemma_semi_minor_bounds(a: int, e: int)
    requires
        0 < a <= MAX_AXIS,
        0 <= e < SCALE,
    ensures
        0 <= semi_minor_of(a, e) <= a,
        root_one_minus_sq(e) <= SCALE,
{
    let s = SCALE as int;
    let q = root_one_minus_sq(e);
    assert(0 <= s * s - e * e) by (nonlinear_arith)
        requires 0 <= e < s;
    lemma_sqrt_floor_facts(s * s - e * e);
    assert(q <= s) by (nonlinear_arith)
        requires q * q <= s * s - e * e, q >= 0, s > 0, 0 <= e;
    assert(0 <= a * q <= a * s) by (nonlinear_arith)
        requires 0 <= q <= s, a > 0;
    vstd::arithmetic::div_mod::lemma_div_is_ordered(a * q, a * s, s);
    vstd::arithmetic::div_mod::lemma_div_multiples_vanish(a, s);
    vstd::arithmetic::div_mod::lemma_div_pos_is_pos(a * q, s);
}

/// The rounded-down square root of a non-negative number exists.
pub proof fn lemma_sqrt_floor_facts(n: int)
    requires
        0 <= n,
    ensures
        is_isqrt(n, sqrt_floor(n)),
{
    // the witness: the largest r with r * r <= n, found by counting up
    let r = sqrt_witness(n, 0);
    assert(is_isqrt(n, r));
}

/// The largest `r >= from` with `r * r <= n`, given `from * from <= n`.
proof fn sqrt_witness(n: int, from: int) -> (r: int)
    requires
        0 <= from,
        from * from <= n,
    ensures
        is_isqrt(n, r),
    decreases n - from * from,
{
    if (from + 1) * (from + 1) > n {
        from
    } else {
        assert(from * from < (from + 1) * (from + 1)) by (nonlinear_arith)
            requires 0 <= from;
        sqrt_witness(n, from + 1)
    }
}

impl Ellipse {
    /// The ellipse with semi-major axis `semi_major` and `eccentricity`;
    /// the semi-minor axis is `a·sqrt(1 - e²)`.
    pub fn from_major(semi_major: i64, eccentricity: i64) -> (r: Ellipse)
        requires
            0 < semi_major <= MAX_AXIS,
            0 <= eccentricity < SCALE,
        ensures
            r@ == (EllipseView {
                semi_major: semi_major as int,
                semi_minor: semi_minor_of(semi_major as int, eccentricity as int),
                eccentricity: eccentricity as int,
            }),
            ellipse_wf(r@),
    {
        let b = Self::get_semi_minor_axis(semi_major, eccentricity);
        Ellipse { semi_major, semi_minor: b, eccentricity }
    }

    /// The ellipse with semi-axes `semi_major` and `semi_minor`; its
    /// eccentricity is `sqrt(1 - b²/a²)`.
    pub fn from_semi(semi_major: i64, semi_minor: i64) -> (r: Ellipse)
        requires
            0 < semi_minor <= semi_major <= MAX_AXIS,
        ensures
            r@ == (EllipseView {
                semi_major: semi_major as int,
                semi_minor: semi_minor as int,
                eccentricity: eccentricity_of(semi_major as int, semi_minor as int),
            }),
            ellipse_wf(r@),
    {
        let e = Self::get_eccentricity(semi_major, semi_minor);
        Ellipse { semi_major, semi_minor, eccentricity: e }
    }

    pub fn semi_major(&self) -> (r: i64)
        ensures
            r == self@.semi_major,
    {
        self.semi_major
    }

    pub fn semi_minor(&self) -> (r: i64)
        ensures
            r == self@.semi_minor,
    {
        self.semi_minor
    }

    pub fn eccentricity(&self) -> (r: i64)
        ensures
            r == self@.eccentricity,
    {
        self.eccentricity
    }

    /// Twice the semi-major axis.
    pub fn major_axis(&self) -> (r: i64)
        requires
            ellipse_wf(self@),
        ensures
            r == 2 * self@.semi_major,
    {
        2 * self.semi_major
    }

    /// Twice the semi-minor axis.
    pub fn minor_axis(&self) -> (r: i64)
        requires
            ellipse_wf(self@),
        ensures
            r == 2 * self@.semi_minor,
    {
        2 * self.semi_minor
    }

    /// Sets the eccentricity and recomputes the semi-minor axis from the
    /// unchanged semi-major axis.
    pub fn set_eccentricity(&mut self, value: i64)
        requires
            ellipse_wf(old(self)@),
            0 <= value < SCALE,
        ensures
            final(self)@ == (EllipseView {
                semi_major: old(self)@.semi_major,
                semi_minor: semi_minor_of(old(self)@.semi_major, value as int),
                eccentricity: value as int,
            }),
            ellipse_wf(final(self)@),
    {
        self.eccentricity = value;
        self.semi_minor = Self::get_semi_minor_axis(self.semi_major, value);
    }

    /// Sets the semi-major axis and recomputes the semi-minor axis from the
    /// unchanged eccentricity.
    pub fn set_semi_major(&mut self, value: i64)
        requires
            ellipse_wf(old(self)@),
            0 < value <= MAX_AXIS,
        ensures
            final(self)@ == (EllipseView {
                semi_major: value as int,
                semi_minor: semi_minor_of(value as int, old(self)@.eccentricity),
                eccentricity: old(self)@.eccentricity,
            }),
            ellipse_wf(final(self)@),
    {
        self.semi_major = value;
        self.semi_minor = Self::get_semi_minor_axis(value, self.eccentricity);
    }

    /// Sets the semi-minor axis and recomputes the eccentricity from the
    /// unchanged semi-major axis.
    pub fn set_semi_minor(&mut self, value: i64)
        requires
            ellipse_wf(old(self)@),
            0 < value <= old(self)@.semi_major,
        ensures
            final(self)@ == (EllipseView {
                semi_major: old(self)@.semi_major,
                semi_minor: value as int,
                eccentricity: eccentricity_of(old(self)@.semi_major, value as int),
            }),
            ellipse_wf(final(self)@),
    {
        self.semi_minor = value;
        self.eccentricity = Self::get_eccentricity(self.semi_major, value);
    }

    /// Area `π·a·b`.
    pub fn area(&self) -> (r: i128)
        requires
            ellipse_wf(self@),
        ensures
            r == area_of(self@.semi_major, self@.semi_minor),
    {
        proof {
            let a = self.semi_major as int;
            let b = self.semi_minor as int;
            assert(0 <= PI * a <= 4 * SCALE * MAX_AXIS) by (nonlinear_arith)
                requires 0 < a <= MAX_AXIS;
            vstd::arithmetic::div_mod::lemma_div_is_ordered(PI * a, 4 * SCALE * MAX_AXIS, SCALE as int);
            vstd::arithmetic::div_mod::lemma_div_multiples_vanish(4 * MAX_AXIS, SCALE as int);
            assert(4 * SCALE * MAX_AXIS == SCALE * (4 * MAX_AXIS)) by (nonlinear_arith);
            vstd::arithmetic::div_mod::lemma_div_pos_is_pos(PI * a, SCALE as int);
            let pa = fx(PI as int, a);
            assert(0 <= pa * b <= 4 * MAX_AXIS * MAX_AXIS) by (nonlinear_arith)
                requires 0 <= pa <= 4 * MAX_AXIS, 0 <= b <= MAX_AXIS;
            vstd::arithmetic::div_mod::lemma_div_is_ordered(pa * b, 4 * MAX_AXIS * MAX_AXIS, SCALE as int);
            vstd::arithmetic::div_mod::lemma_div_pos_is_pos(pa * b, SCALE as int);
        }
        let pa = fx_mul(PI, self.semi_major);
        div_floor(pa * self.semi_minor as i128, SCALE as i128)
    }

    /// The point `(a·cos t, b·sin t)` of the perimeter at the centre angle
    /// whose cosine and sine are `angle`: a centre parametrisation, not the
    /// focus-based polar form of the true anomaly.
    pub fn perimeter_point(&self, angle: Rot) -> (r: (i64, i64))
        requires
            ellipse_wf(self@),
            angle.wf(),
        ensures
            r.0 == fx(self@.semi_major, angle.cos as int),
            r.1 == fx(self@.semi_minor, angle.sin as int),
    {
        proof {
            angle.lemma_parts_bounded();
            lemma_fx_bounded(self.semi_major as int, angle.cos as int);
            lemma_fx_bounded(self.semi_minor as int, angle.sin as int);
        }
        let x = fx_mul(self.semi_major, angle.cos);
        let y = fx_mul(self.semi_minor, angle.sin);
        (x as i64, y as i64)
    }

    /// Focal parameter `b² / c`, the distance from a focus to its directrix;
    /// `None` for a circle, which has no directrix.
    pub fn focal_parameter(&self) -> (r: Option<i128>)
        requires
            ellipse_wf(self@),
        ensures
            r == (if linear_eccentricity_of(self@.semi_major, self@.semi_minor) == 0 {
                None::<i128>
            } else {
                Some((self@.semi_minor * self@.semi_minor
                    / linear_eccentricity_of(self@.semi_major, self@.semi_minor)) as i128)
            }),
    {
        let c = self.linear_eccentricity();
        if c == 0 {
            return None;
        }
        let b = self.semi_minor as i128;
        proof {
            assert(0 <= b * b <= (MAX_AXIS as int) * MAX_AXIS) by (nonlinear_arith)
                requires 0 <= b <= MAX_AXIS;
            vstd::arithmetic::div_mod::lemma_div_is_ordered_by_denominator(b * b, 1, c as int);
            vstd::arithmetic::div_mod::lemma_div_pos_is_pos(b * b, c as int);
        }
        Some(b * b / c as i128)
    }

    /// Linear eccentricity `c = sqrt(a² - b²)`, the distance from the centre
    /// to a focus.
    pub fn linear_eccentricity(&self) -> (r: i64)
        requires
            ellipse_wf(self@),
        ensures
            r == linear_eccentricity_of(self@.semi_major, self@.semi_minor),
            0 <= r <= self@.semi_major,
    {
        let a = self.semi_major as i128;
        let b = self.semi_minor as i128;
        proof {
            assert(0 <= a * a - b * b <= a * a) by (nonlinear_arith)
                requires 0 <= b <= a;
            assert(a * a <= (MAX_AXIS as int) * MAX_AXIS) by (nonlinear_arith)
                requires 0 < a <= MAX_AXIS;
        }
        let n: i128 = a * a - b * b;
        let c = isqrt(n as u128);
        proof {
            assert(c <= a) by (nonlinear_arith)
                requires (c as int) * c <= n, n <= a * a, a > 0;
        }
        c as i64
    }

    /// Semi-latus rectum `ℓ = b² / a`.
    pub fn semi_latus_rectum(&self) -> (r: i64)
        requires
            ellipse_wf(self@),
        ensures
            r == self@.semi_minor * self@.semi_minor / self@.semi_major,
            0 <= r <= self@.semi_minor,
    {
        let a = self.semi_major as i128;
        let b = self.semi_minor as i128;
        proof {
            assert(0 <= b * b <= a * b) by (nonlinear_arith)
                requires 0 <= b <= a;
            assert(a * b <= (MAX_AXIS as int) * MAX_AXIS) by (nonlinear_arith)
                requires 0 <= b <= a <= MAX_AXIS;
            vstd::arithmetic::div_mod::lemma_div_is_ordered(b * b, a * b, a as int);
            vstd::arithmetic::div_mod::lemma_div_multiples_vanish(b as int, a as int);
            assert(a * b == b * a) by (nonlinear_arith);
            vstd::arithmetic::div_mod::lemma_div_pos_is_pos(b * b, a as int);
        }
        (b * b / a) as i64
    }

    /// Semi-minor axis `a·sqrt(1 - e²)`.
    pub fn get_semi_minor_axis(semi_major_axis: i64, eccentricity: i64) -> (r: i64)
        requires
            0 < semi_major_axis <= MAX_AXIS,
            0 <= eccentricity < SCALE,
        ensures
            r == semi_minor_of(semi_major_axis as int, eccentricity as int),
            0 <= r <= semi_major_axis,
            semi_major_axis >= SCALE ==> r > 0,
    {
        let s = SCALE as i128;
        let e = eccentricity as i128;
        proof {
            assert(0 < s * s - e * e <= s * s) by (nonlinear_arith)
                requires 0 <= e < s;
        }
        let radicand: i128 = s * s - e * e;
        let q = isqrt(radicand as u128);
        proof {
            assert(radicand as u128 as int == radicand as int);
            lemma_semi_minor_bounds(semi_major_axis as int, eccentricity as int);
            assert(q >= 1) by (nonlinear_arith)
                requires radicand < ((q + 1) * (q + 1)) as int, radicand >= 1, q >= 0;
            assert(q * semi_major_axis <= (s as int) * MAX_AXIS) by (nonlinear_arith)
                requires q <= s, 0 < semi_major_axis <= MAX_AXIS;
            if semi_major_axis >= SCALE {
                let am = semi_major_axis as int;
                let qi = q as int;
                assert(am * qi >= SCALE) by (nonlinear_arith)
                    requires am >= SCALE, qi >= 1;
                vstd::arithmetic::div_mod::lemma_div_is_ordered(s as int, semi_major_axis * q, s as int);
                vstd::arithmetic::div_mod::lemma_div_by_self(s as int);
            }
        }
        (semi_major_axis as i128 * q as i128 / s) as i64
    }

    /// Eccentricity `sqrt(1 - b²/a²)` of the ellipse with semi-axes
    /// `semi_major` and `semi_minor`.
    pub fn get_eccentricity(semi_major: i64, semi_minor: i64) -> (r: i64)
        requires
            0 < semi_minor <= semi_major <= MAX_AXIS,
        ensures
            r == eccentricity_of(semi_major as int, semi_minor as int),
            0 <= r < SCALE,
    {
        let a = semi_major as i128;
        let b = semi_minor as i128;
        proof {
            assert(0 <= a * a - b * b < a * a) by (nonlinear_arith)
                requires 0 < b <= a;
            assert(a * a <= (MAX_AXIS as int) * MAX_AXIS) by (nonlinear_arith)
                requires 0 < a <= MAX_AXIS;
        }
        let n: i128 = a * a - b * b;
        let cu = isqrt(n as u128);
        proof {
            assert(n as u128 as int == n as int);
            assert(cu < a) by (nonlinear_arith)
                requires (cu as int) * cu <= n, n < a * a, a > 0;
        }
        let c = cu as i128;
        proof {
            assert(c < a) by (nonlinear_arith)
                requires (c as int) * c <= n, n < a * a, a > 0, c >= 0;
            assert(0 <= SCALE * c < SCALE * a) by (nonlinear_arith)
                requires 0 <= c < a;
            vstd::arithmetic::div_mod::lemma_div_pos_is_pos(SCALE * c, a as int);
            vstd::arithmetic::div_mod::lemma_fundamental_div_mod(SCALE * c, a as int);
            vstd::arithmetic::div_mod::lemma_mod_bound(SCALE * c, a as int);
            let qq = (SCALE * c) / (a as int);
            assert(qq < SCALE) by (nonlinear_arith)
                requires qq * a <= SCALE * c, SCALE * c < SCALE * a, a > 0;
            assert(SCALE * c <= (SCALE as int) * MAX_AXIS) by (nonlinear_arith)
                requires 0 <= c < a, a <= MAX_AXIS;
        }
        (SCALE as i128 * c / a) as i64
    }
}

/// Smallest eccentricity for which the round trip below is stated (0.002).
pub const ROUND_TRIP_MIN_ECCENTRICITY: i64 = 2_000_000;

/// Largest change of the eccentricity over the round trip (1e-6).
pub const ROUND_TRIP_TOLERANCE: i64 = 1_000;

/// Recovering the eccentricity from the semi-minor axis it gave returns it
/// within `ROUND_TRIP_TOLERANCE`, for a semi-major axis of at least one unit
/// and an eccentricity of at least `ROUND_TRIP_MIN_ECCENTRICITY`. (Below that
/// eccentricity the rounding of the semi-minor axis dominates: the shape of
/// a near-circle says little about its eccentricity.)
pub proof fn lemma_eccentricity_round_trip(a: int, e: int)
    requires
        SCALE <= a <= MAX_AXIS,
        ROUND_TRIP_MIN_ECCENTRICITY <= e < SCALE,
    ensures
        e - ROUND_TRIP_TOLERANCE <= eccentricity_of(a, semi_minor_of(a, e)) <= e + ROUND_TRIP_TOLERANCE,
{
    let s = SCALE as int;
    let q = root_one_minus_sq(e);
    let b = semi_minor_of(a, e);
    let n = a * a - b * b;
    let c = sqrt_floor(n);
    let ep = eccentricity_of(a, b);
    lemma_semi_minor_bounds(a, e);
    assert(0 <= s * s - e * e) by (nonlinear_arith)
        requires 0 <= e < s;
    lemma_sqrt_floor_facts(s * s - e * e);
    // b·s <= a·q < b·s + s
    vstd::arithmetic::div_mod::lemma_fundamental_div_mod(a * q, s);
    vstd::arithmetic::div_mod::lemma_mod_bound(a * q, s);
    assert(b * s <= a * q < b * s + s) by (nonlinear_arith)
        requires a * q == s * b + (a * q) % s, 0 <= (a * q) % s < s;
    assert(0 <= n) by (nonlinear_arith)
        requires 0 <= b <= a, n == a * a - b * b;
    lemma_sqrt_floor_facts(n);
    // ep·a <= s·c < ep·a + a
    vstd::arithmetic::div_mod::lemma_fundamental_div_mod(s * c, a);
    vstd::arithmetic::div_mod::lemma_mod_bound(s * c, a);
    assert(ep * a <= s * c < ep * a + a) by (nonlinear_arith)
        requires s * c == a * ep + (s * c) % a, 0 <= (s * c) % a < a;
    // lower bound: t = a·e / s satisfies t <= c
    let t = (a * e) / s;
    vstd::arithmetic::div_mod::lemma_fundamental_div_mod(a * e, s);
    vstd::arithmetic::div_mod::lemma_mod_bound(a * e, s);
    assert(t * s <= a * e < t * s + s) by (nonlinear_arith)
        requires a * e == s * t + (a * e) % s, 0 <= (a * e) % s < s;
    assert(0 <= t) by (nonlinear_arith)
        requires t * s + s > a * e, a * e >= 0, s > 0;
    assert(b * b * (s * s) <= a * a * (s * s - e * e)) by (nonlinear_arith)
        requires 0 <= b * s <= a * q, q * q <= s * s - e * e, 0 <= q, 0 <= b, a > 0;
    assert(t * t * (s * s) <= a * a * (e * e)) by (nonlinear_arith)
        requires 0 <= t * s <= a * e, 0 <= t;
    assert(t * t <= n) by (nonlinear_arith)
        requires t * t * (s * s) <= a * a * (e * e), b * b * (s * s) <= a * a * (s * s - e * e),
            n == a * a - b * b, s > 0;
    assert(t <= c) by (nonlinear_arith)
        requires t * t <= n, n < (c + 1) * (c + 1), 0 <= t, 0 <= c;
    assert(ep * a > a * e - s - a) by (nonlinear_arith)
        requires ep * a + a > s * c, c >= t, t * s + s > a * e, s > 0;
    assert(ep >= e - 1) by (nonlinear_arith)
        requires ep * a > a * e - s - a, a >= s, s > 0;
    // upper bound: with d = (b + 1)·s + a, a²(s² - e²) < d²
    let d = (b + 1) * s + a;
    assert(a * a * (s * s - e * e) < d * d) by (nonlinear_arith)
        requires s * s - e * e < (q + 1) * (q + 1), a * q < b * s + s, d == (b + 1) * s + a,
            0 <= q, 0 <= b, a > 0, s > 0;
    assert(b * b * (s * s) >= d * d - 2 * d * (s + a)) by (nonlinear_arith)
        requires d == (b + 1) * s + a, b >= 0, s > 0, a > 0;
    assert(b * s <= a * s) by (nonlinear_arith)
        requires b <= a, s > 0;
    assert(d <= a * (s + 2)) by (nonlinear_arith)
        requires d == b * s + s + a, b * s <= a * s, s <= a;
    assert(s * s * n < a * a * (e * e) + 4 * (a * a) * (s + 2)) by (nonlinear_arith)
        requires n == a * a - b * b, b * b * (s * s) >= d * d - 2 * d * (s + a),
            a * a * (s * s - e * e) < d * d, d <= a * (s + 2), 0 < d, s <= a, s > 0;
    assert(s * c < a * (e + ROUND_TRIP_TOLERANCE + 1)) by (nonlinear_arith)
        requires s * s * n < a * a * (e * e) + 4 * (a * a) * (s + 2), c * c <= n, c >= 0,
            1001 * e >= 2 * s + 4, a > 0, e > 0, s > 0;
    assert(ep <= e + ROUND_TRIP_TOLERANCE) by (nonlinear_arith)
        requires ep * a <= s * c, s * c < a * (e + ROUND_TRIP_TOLERANCE + 1), a > 0;
}

/// A fixed-point product of a value and a part of a rotation pair stays
/// within the value's magnitude.
pub proof fn lemma_fx_bounded(v: int, p: int)
    requires
        -SCALE <= p <= SCALE,
        -0x7fff_ffff_ffff_ffff <= v <= 0x7fff_ffff_ffff_ffff,
    ensures
        -0x7fff_ffff_ffff_ffff - 1 <= fx(v, p) <= 0x7fff_ffff_ffff_ffff,
        v >= 0 ==> -v - 1 <= fx(v, p) <= v,
        v < 0 ==> v - 1 <= fx(v, p) <= -v,
{
    let s = SCALE as int;
    let m = if v >= 0 { v } else { -v };
    assert(-m * s <= v * p <= m * s) by (nonlinear_arith)
        requires -s <= p <= s, m == v || m == -v, m >= 0;
    vstd::arithmetic::div_mod::lemma_div_is_ordered(v * p, m * s, s);
    vstd::arithmetic::div_mod::lemma_div_is_ordered(-m * s, v * p, s);
    vstd::arithmetic::div_mod::lemma_div_multiples_vanish(m, s);
    vstd::arithmetic::div_mod::lemma_div_multiples_vanish(-m, s);
    assert(-m * s == s * (-m)) by (nonlinear_arith);
    assert(m * s == s * m) by (nonlinear_arith);
}

} // verus!
