use vstd::prelude::*;
use crate::fixed::{div_trunc, norm_angle, normalize_angle, tdiv, Rot, SCALE};

verus! {

/// Bound on each coordinate of a vector the library rotates or scales.
pub const MAX_COORD: i64 = 0x1000_0000_0000_0000;

/// A vector in fixed point.
#[derive(Clone, Copy, Debug, PartialEq, Eq, Structural)]
pub struct Vec3 {
    pub x: i64,
    pub y: i64,
    pub z: i64,
}

/// Squared length.
pub open spec fn norm2(v: Vec3) -> int {
    v.x * v.x + v.y * v.y + v.z * v.z
}

/// No longer than one unit.
pub open spec fn unit_bounded(v: Vec3) -> bool {
    norm2(v) <= SCALE * SCALE
}

/// Rotation about the `y` (up) axis: `(x cos + z sin, y, z cos - x sin)`,
/// each product rounded toward zero.
pub open spec fn rot_y(v: Vec3, r: Rot) -> Vec3 {
    Vec3 {
        x: tdiv(v.x * r.cos + v.z * r.sin, SCALE as int) as i64,
        y: v.y,
        z: tdiv(v.z * r.cos - v.x * r.sin, SCALE as int) as i64,
    }
}

/// Rotation about the `z` (forward) axis: `(x cos - y sin, x sin + y cos, z)`,
/// each product rounded toward zero.
pub open spec fn rot_z(v: Vec3, r: Rot) -> Vec3 {
    Vec3 {
        x: tdiv(v.x * r.cos - v.y * r.sin, SCALE as int) as i64,
        y: tdiv(v.x * r.sin + v.y * r.cos, SCALE as int) as i64,
        z: v.z,
    }
}

/// The opposite vector.
pub open spec fn neg(v: Vec3) -> Vec3 {
    Vec3 { x: (-v.x) as i64, y: (-v.y) as i64, z: (-v.z) as i64 }
}

/// The unit forward (`z`) axis of a frame, in that frame's coordinates.
pub open spec fn forward_axis() -> Vec3 {
    Vec3 { x: 0, y: 0, z: SCALE as i64 }
}

/// The unit up (`y`) axis of a frame, in that frame's coordinates.
pub open spec fn up_axis() -> Vec3 {
    Vec3 { x: 0, y: SCALE as i64, z: 0 }
}

/// A rotation by a well-formed pair keeps `(a, b)` no longer than it was:
/// `(a c - b s)² + (a s + b c)² = (a² + b²)(c² + s²)`.
proof fn lemma_plane_rotation(a: int, b: int, r: Rot)
    requires
        r.wf(),
    ensures
        ({
            let u = tdiv(a * r.cos - b * r.sin, SCALE as int);
            let w = tdiv(a * r.sin + b * r.cos, SCALE as int);
            u * u + w * w <= a * a + b * b
        }),
{
    let c = r.cos as int;
    let s = r.sin as int;
    let k = SCALE as int;
    let n1 = a * c - b * s;
    let n2 = a * s + b * c;
    let u = tdiv(n1, k);
    let w = tdiv(n2, k);
    let (ac, bs, as_, bc) = (a * c, b * s, a * s, b * c);
    assert(n1 * n1 == ac * ac - 2 * (ac * bs) + bs * bs) by (nonlinear_arith)
        requires n1 == ac - bs;
    assert(n2 * n2 == as_ * as_ + 2 * (as_ * bc) + bc * bc) by (nonlinear_arith)
        requires n2 == as_ + bc;
    assert(ac * bs == as_ * bc) by (nonlinear_arith)
        requires ac == a * c, bs == b * s, as_ == a * s, bc == b * c;
    let (aa, bb, cc, ss) = (a * a, b * b, c * c, s * s);
    assert(ac * ac == aa * cc) by (nonlinear_arith)
        requires ac == a * c, aa == a * a, cc == c * c;
    assert(bs * bs == bb * ss) by (nonlinear_arith)
        requires bs == b * s, bb == b * b, ss == s * s;
    assert(as_ * as_ == aa * ss) by (nonlinear_arith)
        requires as_ == a * s, aa == a * a, ss == s * s;
    assert(bc * bc == bb * cc) by (nonlinear_arith)
        requires bc == b * c, bb == b * b, cc == c * c;
    assert(aa * cc + bb * ss + aa * ss + bb * cc == (aa + bb) * (cc + ss)) by (nonlinear_arith);
    assert(n1 * n1 + n2 * n2 == (a * a + b * b) * (c * c + s * s));
    assert(0 <= a * a + b * b) by (nonlinear_arith);
    assert((a * a + b * b) * (c * c + s * s) <= (a * a + b * b) * (k * k)) by (nonlinear_arith)
        requires c * c + s * s <= k * k, 0 <= a * a + b * b;
    lemma_tdiv_square(n1, k);
    lemma_tdiv_square(n2, k);
    assert(u * u + w * w <= a * a + b * b) by (nonlinear_arith)
        requires u * u * (k * k) <= n1 * n1, w * w * (k * k) <= n2 * n2,
            n1 * n1 + n2 * n2 <= (a * a + b * b) * (k * k), k > 0;
}

/// Rounding toward zero never makes a quotient larger in size.
pub proof fn lemma_tdiv_square(n: int, d: int)
    requires
        d > 0,
    ensures
        tdiv(n, d) * tdiv(n, d) * (d * d) <= n * n,
{
    let m = if n >= 0 { n } else { -n };
    let q = m / d;
    vstd::arithmetic::div_mod::lemma_fundamental_div_mod(m, d);
    vstd::arithmetic::div_mod::lemma_mod_bound(m, d);
    vstd::arithmetic::div_mod::lemma_div_pos_is_pos(m, d);
    assert(0 <= q * d <= m) by (nonlinear_arith)
        requires m == d * q + m % d, 0 <= m % d, q >= 0, d > 0;
    assert(q * q * (d * d) <= m * m) by (nonlinear_arith)
        requires 0 <= q * d <= m;
    assert(m * m == n * n) by (nonlinear_arith)
        requires m == n || m == -n;
    let t = tdiv(n, d);
    assert(t * t == q * q) by (nonlinear_arith)
        requires t == q || t == -q;
}

/// A coordinate bounded by a squared length.
proof fn lemma_coord_bound(a: int, n: int)
    requires
        a * a <= n,
        n <= MAX_COORD * MAX_COORD,
    ensures
        -MAX_COORD <= a <= MAX_COORD,
{
    let m = MAX_COORD as int;
    assert(-m <= a <= m) by (nonlinear_arith)
        requires a * a <= m * m, m > 0;
}

/// Rotates `v` about the up axis.
pub fn rotate_y(v: Vec3, r: Rot) -> (out: Vec3)
    requires
        r.wf(),
        norm2(v) <= MAX_COORD * MAX_COORD,
    ensures
        out == rot_y(v, r),
        norm2(out) <= norm2(v),
{
    proof {
        r.lemma_parts_bounded();
        assert(0 <= v.x * v.x && 0 <= v.y * v.y && 0 <= v.z * v.z) by (nonlinear_arith);
        lemma_coord_bound(v.x as int, norm2(v));
        lemma_coord_bound(v.z as int, norm2(v));
        lemma_plane_rotation(v.z as int, v.x as int, r);
        lemma_products_fit(v.x as int, v.z as int, r);
        assert(v.z * r.sin + v.x * r.cos == v.x * r.cos + v.z * r.sin);
    }
    let k = SCALE as i128;
    let (x, z, c, s) = (v.x as i128, v.z as i128, r.cos as i128, r.sin as i128);
    let u = div_trunc(x * c + z * s, k);
    let w = div_trunc(z * c - x * s, k);
    proof {
        assert(u * u <= norm2(v) && w * w <= norm2(v)) by (nonlinear_arith)
            requires u * u + w * w <= x * x + z * z, norm2(v) == x * x + v.y * v.y + z * z;
        lemma_coord_bound(u as int, norm2(v));
        lemma_coord_bound(w as int, norm2(v));
    }
    Vec3 { x: u as i64, y: v.y, z: w as i64 }
}

/// Rotates `v` about the forward axis.
pub fn rotate_z(v: Vec3, r: Rot) -> (out: Vec3)
    requires
        r.wf(),
        norm2(v) <= MAX_COORD * MAX_COORD,
    ensures
        out == rot_z(v, r),
        norm2(out) <= norm2(v),
{
    proof {
        r.lemma_parts_bounded();
        assert(0 <= v.x * v.x && 0 <= v.y * v.y && 0 <= v.z * v.z) by (nonlinear_arith);
        lemma_coord_bound(v.x as int, norm2(v));
        lemma_coord_bound(v.y as int, norm2(v));
        lemma_plane_rotation(v.x as int, v.y as int, r);
        lemma_products_fit(v.x as int, v.y as int, r);
    }
    let k = SCALE as i128;
    let (x, y, c, s) = (v.x as i128, v.y as i128, r.cos as i128, r.sin as i128);
    let u = div_trunc(x * c - y * s, k);
    let w = div_trunc(x * s + y * c, k);
    proof {
        assert(u * u <= norm2(v) && w * w <= norm2(v)) by (nonlinear_arith)
            requires u * u + w * w <= x * x + y * y, norm2(v) == x * x + y * y + v.z * v.z;
        lemma_coord_bound(u as int, norm2(v));
        lemma_coord_bound(w as int, norm2(v));
    }
    Vec3 { x: u as i64, y: w as i64, z: v.z }
}

/// The products of a rotation stay far inside `i128`.
proof fn lemma_products_fit(a: int, b: int, r: Rot)
    requires
        -MAX_COORD <= a <= MAX_COORD,
        -MAX_COORD <= b <= MAX_COORD,
        -SCALE <= r.cos <= SCALE,
        -SCALE <= r.sin <= SCALE,
    ensures
        -2 * MAX_COORD * SCALE <= a * r.cos <= 2 * MAX_COORD * SCALE,
        -2 * MAX_COORD * SCALE <= a * r.sin <= 2 * MAX_COORD * SCALE,
        -2 * MAX_COORD * SCALE <= b * r.cos <= 2 * MAX_COORD * SCALE,
        -2 * MAX_COORD * SCALE <= b * r.sin <= 2 * MAX_COORD * SCALE,
{
    let m = MAX_COORD as int;
    let k = SCALE as int;
    let c = r.cos as int;
    let s = r.sin as int;
    assert(-m * k <= a * c <= m * k) by (nonlinear_arith)
        requires -m <= a <= m, -k <= c <= k, m > 0, k > 0;
    assert(-m * k <= a * s <= m * k) by (nonlinear_arith)
        requires -m <= a <= m, -k <= s <= k, m > 0, k > 0;
    assert(-m * k <= b * c <= m * k) by (nonlinear_arith)
        requires -m <= b <= m, -k <= c <= k, m > 0, k > 0;
    assert(-m * k <= b * s <= m * k) by (nonlinear_arith)
        requires -m <= b <= m, -k <= s <= k, m > 0, k > 0;
}

/// The opposite of `v`.
pub fn negate(v: Vec3) -> (out: Vec3)
    requires
        norm2(v) <= MAX_COORD * MAX_COORD,
    ensures
        out == neg(v),
        norm2(out) == norm2(v),
{
    proof {
        assert(0 <= v.x * v.x && 0 <= v.y * v.y && 0 <= v.z * v.z) by (nonlinear_arith);
        lemma_coord_bound(v.x as int, norm2(v));
        lemma_coord_bound(v.y as int, norm2(v));
        lemma_coord_bound(v.z as int, norm2(v));
        let n = neg(v);
        assert(n.x == -v.x && n.y == -v.y && n.z == -v.z);
        assert(norm2(n) == norm2(v)) by (nonlinear_arith)
            requires n.x == -v.x, n.y == -v.y, n.z == -v.z;
    }
    Vec3 { x: -v.x, y: -v.y, z: -v.z }
}

/// The cosine and sine of an orbital plane's three angles.
#[derive(Clone, Copy, Debug, PartialEq, Eq, Structural)]
pub struct PlaneRots {
    pub node: Rot,
    pub inclination: Rot,
    pub periapsis: Rot,
}

impl PlaneRots {
    pub open spec fn wf(self) -> bool {
        self.node.wf() && self.inclination.wf() && self.periapsis.wf()
    }
}

/// Direction of the ascending node: the forward axis turned about the up
/// axis by the longitude of the ascending node.
pub open spec fn ascending_of(p: PlaneRots) -> Vec3 {
    rot_y(forward_axis(), p.node)
}

/// Normal of the orbital plane: the up axis turned about the ascending node
/// by the inclination. Turning about the turned axis equals turning about the
/// forward axis first and by the node second.
pub open spec fn normal_of(p: PlaneRots) -> Vec3 {
    rot_y(rot_z(up_axis(), p.inclination), p.node)
}

/// Direction of the body at the true anomaly `theta`: the periapsis
/// direction turned about the normal by `theta`. With `Q` the node, then
/// inclination, then periapsis turn, this is `Q` applied to the forward axis
/// turned by `theta`: node, inclination and periapsis in that order, outermost
/// first.
pub open spec fn direction_of(p: PlaneRots, theta: Rot) -> Vec3 {
    rot_y(rot_z(rot_y(rot_y(forward_axis(), theta), p.periapsis), p.inclination), p.node)
}

/// Direction of periapsis: the ascending node turned about the normal by
/// the argument of periapsis.
pub open spec fn periapsis_of_plane(p: PlaneRots) -> Vec3 {
    rot_y(rot_z(rot_y(forward_axis(), p.periapsis), p.inclination), p.node)
}

/// The state of an orbital plane as a mathematical value.
pub struct OrbitalPlaneView {
    pub ascending: int,
    pub inclination: int,
    pub periapsis: int,
    pub rots: Option<PlaneRots>,
}

/// The plane an orbit lies in, relative to its parent reference frame, and
/// the orientation of the ellipse within it.
///
/// The cosines and sines of the angles are cached; every setter drops the
/// cache, and `refresh` fills it again.
pub struct OrbitalPlane {
    longitude_of_ascending_node: i64,
    inclination: i64,
    argument_of_periapsis: i64,
    rots: Option<PlaneRots>,
}

impl View for OrbitalPlane {
    type V = OrbitalPlaneView;

    closed spec fn view(&self) -> OrbitalPlaneView {
        OrbitalPlaneView {
            ascending: self.longitude_of_ascending_node as int,
            inclination: self.inclination as int,
            periapsis: self.argument_of_periapsis as int,
            rots: self.rots,
        }
    }
}

/// The unit vectors of the orbit's directions, in the parent frame's
/// coordinates.
fn unit_rotations(p: PlaneRots, theta: Rot) -> (r: Vec3)
    requires
        p.wf(),
        theta.wf(),
    ensures
        r == direction_of(p, theta),
        unit_bounded(r),
{
    let f = Vec3 { x: 0, y: 0, z: SCALE };
    proof {
        assert(norm2(f) == SCALE * SCALE);
    }
    let v1 = rotate_y(f, theta);
    let v2 = rotate_y(v1, p.periapsis);
    let v3 = rotate_z(v2, p.inclination);
    rotate_y(v3, p.node)
}

impl OrbitalPlane {
    /// Angles in `[0, TAU)` and a well-formed cache.
    pub open spec fn wf(&self) -> bool {
        let v = self@;
        &&& 0 <= v.ascending < crate::fixed::TAU
        &&& 0 <= v.inclination < crate::fixed::TAU
        &&& 0 <= v.periapsis < crate::fixed::TAU
        &&& (v.rots matches Some(r) ==> r.wf())
    }

    /// The plane with the given angles, each reduced into `[0, TAU)`, and an
    /// empty cache.
    pub fn new(ascending_angle: i64, inclination_angle: i64, periapsis_angle: i64) -> (r: OrbitalPlane)
        ensures
            r.wf(),
            r@ == (OrbitalPlaneView {
                ascending: norm_angle(ascending_angle as int),
                inclination: norm_angle(inclination_angle as int),
                periapsis: norm_angle(periapsis_angle as int),
                rots: None,
            }),
    {
        OrbitalPlane {
            longitude_of_ascending_node: normalize_angle(ascending_angle),
            inclination: normalize_angle(inclination_angle),
            argument_of_periapsis: normalize_angle(periapsis_angle),
            rots: None,
        }
    }

    pub fn ascending_arg(&self) -> (r: i64)
        ensures
            r == self@.ascending,
    {
        self.longitude_of_ascending_node
    }

    pub fn inclination_arg(&self) -> (r: i64)
        ensures
            r == self@.inclination,
    {
        self.inclination
    }

    pub fn periapsis_arg(&self) -> (r: i64)
        ensures
            r == self@.periapsis,
    {
        self.argument_of_periapsis
    }

    /// The cached cosines and sines, if they are current.
    pub fn rotations(&self) -> (r: Option<PlaneRots>)
        ensures
            r == self@.rots,
    {
        self.rots
    }

    /// Sets the argument of periapsis (reduced into `[0, TAU)`) and drops the cache.
    pub fn set_periapsis_arg(&mut self, new_value: i64)
        requires
            old(self).wf(),
        ensures
            final(self).wf(),
            final(self)@ == (OrbitalPlaneView {
                periapsis: norm_angle(new_value as int),
                rots: None,
                ..old(self)@
            }),
    {
        self.argument_of_periapsis = normalize_angle(new_value);
        self.rots = None;
    }

    /// Sets the longitude of the ascending node (reduced into `[0, TAU)`) and
    /// drops the cache.
    pub fn set_ascending_arg(&mut self, new_value: i64)
        requires
            old(self).wf(),
        ensures
            final(self).wf(),
            final(self)@ == (OrbitalPlaneView {
                ascending: norm_angle(new_value as int),
                rots: None,
                ..old(self)@
            }),
    {
        self.longitude_of_ascending_node = normalize_angle(new_value);
        self.rots = None;
    }

    /// Sets the inclination (reduced into `[0, TAU)`) and drops the cache.
    pub fn set_inclination_arg(&mut self, new_value: i64)
        requires
            old(self).wf(),
        ensures
            final(self).wf(),
            final(self)@ == (OrbitalPlaneView {
                inclination: norm_angle(new_value as int),
                rots: None,
                ..old(self)@
            }),
    {
        self.inclination = normalize_angle(new_value);
        self.rots = None;
    }

    /// Stores the cosines and sines of the current angles.
    pub fn refresh(&mut self, rots: PlaneRots)
        requires
            old(self).wf(),
            rots.wf(),
        ensures
            final(self).wf(),
            final(self)@ == (OrbitalPlaneView { rots: Some(rots), ..old(self)@ }),
    {
        self.rots = Some(rots);
    }

    /// Direction of the ascending node.
    pub fn ascending_local(&self) -> (r: Vec3)
        requires
            self.wf(),
            self@.rots.is_some(),
        ensures
            r == ascending_of(self@.rots.unwrap()),
            unit_bounded(r),
    {
        let p = self.rots.unwrap();
        let f = Vec3 { x: 0, y: 0, z: SCALE };
        proof {
            assert(norm2(f) == SCALE * SCALE);
        }
        rotate_y(f, p.node)
    }

    /// Direction of the descending node, opposite the ascending node.
    pub fn descending_local(&self) -> (r: Vec3)
        requires
            self.wf(),
            self@.rots.is_some(),
        ensures
            r == neg(ascending_of(self@.rots.unwrap())),
            unit_bounded(r),
    {
        negate(self.ascending_local())
    }

    /// Normal (zenith) of the orbital plane.
    pub fn zenith_local(&self) -> (r: Vec3)
        requires
            self.wf(),
            self@.rots.is_some(),
        ensures
            r == normal_of(self@.rots.unwrap()),
            unit_bounded(r),
    {
        let p = self.rots.unwrap();
        let u = Vec3 { x: 0, y: SCALE, z: 0 };
        proof {
            assert(norm2(u) == SCALE * SCALE);
        }
        rotate_y(rotate_z(u, p.inclination), p.node)
    }

    /// Nadir of the orbital plane, opposite its normal.
    pub fn nadir_local(&self) -> (r: Vec3)
        requires
            self.wf(),
            self@.rots.is_some(),
        ensures
            r == neg(normal_of(self@.rots.unwrap())),
            unit_bounded(r),
    {
        negate(self.zenith_local())
    }

    /// Direction of periapsis.
    pub fn periapsis_local(&self) -> (r: Vec3)
        requires
            self.wf(),
            self@.rots.is_some(),
        ensures
            r == periapsis_of_plane(self@.rots.unwrap()),
            unit_bounded(r),
    {
        let p = self.rots.unwrap();
        let f = Vec3 { x: 0, y: 0, z: SCALE };
        proof {
            assert(norm2(f) == SCALE * SCALE);
        }
        rotate_y(rotate_z(rotate_y(f, p.periapsis), p.inclination), p.node)
    }

    /// Direction of apoapsis, opposite periapsis.
    pub fn apoapsis_local(&self) -> (r: Vec3)
        requires
            self.wf(),
            self@.rots.is_some(),
        ensures
            r == neg(periapsis_of_plane(self@.rots.unwrap())),
            unit_bounded(r),
    {
        negate(self.periapsis_local())
    }

    /// Direction from the focus to the body at the true anomaly `theta`.
    pub fn direction_at(&self, theta: Rot) -> (r: Vec3)
        requires
            self.wf(),
            self@.rots.is_some(),
            theta.wf(),
        ensures
            r == direction_of(self@.rots.unwrap(), theta),
            unit_bounded(r),
    {
        unit_rotations(self.rots.unwrap(), theta)
    }
}

/// At true anomaly zero the body lies in the direction of periapsis.
pub proof fn lemma_direction_at_periapsis(p: PlaneRots)
    ensures
        direction_of(p, Rot { cos: SCALE as i64, sin: 0 }) == periapsis_of_plane(p),
{
    let k = SCALE as int;
    let f = forward_axis();
    let t = Rot { cos: SCALE as i64, sin: 0 };
    assert(f.x * t.cos + f.z * t.sin == 0);
    assert(f.z * t.cos - f.x * t.sin == k * k);
    vstd::arithmetic::div_mod::lemma_div_of0(k);
    vstd::arithmetic::div_mod::lemma_div_multiples_vanish(k, k);
    assert(rot_y(f, t) == f);
}

} // verus!
