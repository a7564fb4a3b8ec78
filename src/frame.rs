use vstd::prelude::*;
use crate::fixed::{div_trunc, tdiv, SCALE};
use crate::plane::{norm2, unit_bounded, Vec3};

verus! {

/// Bound on each coordinate of a reference frame's origin.
pub const MAX_TRANSLATION: i64 = 0x2000_0000_0000_0000;

/// Bound on each coordinate of an offset that a frame places in the world.
pub const MAX_OFFSET: i64 = 0x0400_0000_0000_0000;

/// A parent reference frame: an origin and three basis vectors, all in world
/// coordinates.
#[derive(Clone, Copy, Debug, PartialEq, Eq, Structural)]
pub struct ReferenceFrame {
    pub translation: Vec3,
    pub right: Vec3,
    pub up: Vec3,
    pub forward: Vec3,
}

/// One world coordinate of the offset `v`: `(v.x·r + v.y·u + v.z·f) / SCALE`,
/// rounded toward zero.
pub open spec fn combine(v: Vec3, r: int, u: int, f: int) -> int {
    tdiv(v.x * r + v.y * u + v.z * f, SCALE as int)
}

/// The offset `v`, given in the frame's coordinates, in world coordinates.
pub open spec fn frame_dir(fr: ReferenceFrame, v: Vec3) -> Vec3 {
    Vec3 {
        x: combine(v, fr.right.x as int, fr.up.x as int, fr.forward.x as int) as i64,
        y: combine(v, fr.right.y as int, fr.up.y as int, fr.forward.y as int) as i64,
        z: combine(v, fr.right.z as int, fr.up.z as int, fr.forward.z as int) as i64,
    }
}

/// The point at offset `v` from the frame's origin, in world coordinates.
pub open spec fn frame_point(fr: ReferenceFrame, v: Vec3) -> Vec3 {
    let d = frame_dir(fr, v);
    Vec3 {
        x: (fr.translation.x + d.x) as i64,
        y: (fr.translation.y + d.y) as i64,
        z: (fr.translation.z + d.z) as i64,
    }
}

/// Each coordinate of `v` lies within `MAX_OFFSET`.
pub open spec fn offset_bounded(v: Vec3) -> bool {
    -MAX_OFFSET <= v.x <= MAX_OFFSET && -MAX_OFFSET <= v.y <= MAX_OFFSET
        && -MAX_OFFSET <= v.z <= MAX_OFFSET
}

/// A unit-bounded vector's coordinates lie within one unit.
pub proof fn lemma_unit_coords(v: Vec3)
    requires
        unit_bounded(v),
    ensures
        -SCALE <= v.x <= SCALE,
        -SCALE <= v.y <= SCALE,
        -SCALE <= v.z <= SCALE,
{
    let k = SCALE as int;
    assert(0 <= v.x * v.x && 0 <= v.y * v.y && 0 <= v.z * v.z) by (nonlinear_arith);
    assert(-k <= v.x <= k) by (nonlinear_arith)
        requires v.x * v.x <= k * k, k > 0;
    assert(-k <= v.y <= k) by (nonlinear_arith)
        requires v.y * v.y <= k * k, k > 0;
    assert(-k <= v.z <= k) by (nonlinear_arith)
        requires v.z * v.z <= k * k, k > 0;
}

impl ReferenceFrame {
    /// Axes no longer than one unit, origin within `MAX_TRANSLATION`.
    pub open spec fn wf(&self) -> bool {
        &&& unit_bounded(self.right)
        &&& unit_bounded(self.up)
        &&& unit_bounded(self.forward)
        &&& -MAX_TRANSLATION <= self.translation.x <= MAX_TRANSLATION
        &&& -MAX_TRANSLATION <= self.translation.y <= MAX_TRANSLATION
        &&& -MAX_TRANSLATION <= self.translation.z <= MAX_TRANSLATION
    }

    /// The frame at the world origin with the world axes.
    pub fn identity() -> (r: ReferenceFrame)
        ensures
            r.wf(),
            r == (ReferenceFrame {
                translation: Vec3 { x: 0, y: 0, z: 0 },
                right: Vec3 { x: SCALE as i64, y: 0, z: 0 },
                up: Vec3 { x: 0, y: SCALE as i64, z: 0 },
                forward: Vec3 { x: 0, y: 0, z: SCALE as i64 },
            }),
    {
        let r = ReferenceFrame {
            translation: Vec3 { x: 0, y: 0, z: 0 },
            right: Vec3 { x: SCALE, y: 0, z: 0 },
            up: Vec3 { x: 0, y: SCALE, z: 0 },
            forward: Vec3 { x: 0, y: 0, z: SCALE },
        };
        assert(norm2(r.right) == SCALE * SCALE);
        assert(norm2(r.up) == SCALE * SCALE);
        assert(norm2(r.forward) == SCALE * SCALE);
        r
    }

    /// The offset `v` in world coordinates.
    pub fn to_world_dir(&self, v: Vec3) -> (out: Vec3)
        requires
            self.wf(),
            offset_bounded(v),
        ensures
            out == frame_dir(*self, v),
            -3 * MAX_OFFSET <= out.x <= 3 * MAX_OFFSET,
            -3 * MAX_OFFSET <= out.y <= 3 * MAX_OFFSET,
            -3 * MAX_OFFSET <= out.z <= 3 * MAX_OFFSET,
    {
        proof {
            lemma_unit_coords(self.right);
            lemma_unit_coords(self.up);
            lemma_unit_coords(self.forward);
        }
        let x = combine_exec(v, self.right.x, self.up.x, self.forward.x);
        let y = combine_exec(v, self.right.y, self.up.y, self.forward.y);
        let z = combine_exec(v, self.right.z, self.up.z, self.forward.z);
        Vec3 { x, y, z }
    }

    /// The point at offset `v` from the origin, in world coordinates.
    pub fn to_world_point(&self, v: Vec3) -> (out: Vec3)
        requires
            self.wf(),
            offset_bounded(v),
        ensures
            out == frame_point(*self, v),
    {
        let d = self.to_world_dir(v);
        Vec3 {
            x: self.translation.x + d.x,
            y: self.translation.y + d.y,
            z: self.translation.z + d.z,
        }
    }
}

/// One world coordinate of an offset.
fn combine_exec(v: Vec3, r: i64, u: i64, f: i64) -> (out: i64)
    requires
        offset_bounded(v),
        -SCALE <= r <= SCALE,
        -SCALE <= u <= SCALE,
        -SCALE <= f <= SCALE,
    ensures
        out == combine(v, r as int, u as int, f as int),
        -3 * MAX_OFFSET <= out <= 3 * MAX_OFFSET,
{
    let ghost m = MAX_OFFSET as int;
    let ghost k = SCALE as int;
    proof {
        assert(-m * k <= v.x * r <= m * k) by (nonlinear_arith)
            requires -m <= v.x <= m, -k <= r <= k, m > 0, k > 0;
        assert(-m * k <= v.y * u <= m * k) by (nonlinear_arith)
            requires -m <= v.y <= m, -k <= u <= k, m > 0, k > 0;
        assert(-m * k <= v.z * f <= m * k) by (nonlinear_arith)
            requires -m <= v.z <= m, -k <= f <= k, m > 0, k > 0;
    }
    let n: i128 = v.x as i128 * r as i128 + v.y as i128 * u as i128 + v.z as i128 * f as i128;
    let q = div_trunc(n, SCALE as i128);
    proof {
        assert(-3 * m * k <= n <= 3 * m * k);
        let mm = 3 * m;
        assert(n * n <= (mm * k) * (mm * k)) by (nonlinear_arith)
            requires -mm * k <= n <= mm * k, mm > 0, k > 0;
        assert(q * q * (k * k) <= (mm * k) * (mm * k));
        assert(q * q <= mm * mm) by (nonlinear_arith)
            requires q * q * (k * k) <= (mm * k) * (mm * k), k > 0;
        assert(-mm <= q <= mm) by (nonlinear_arith)
            requires q * q <= mm * mm, mm > 0;
    }
    q as i64
}

} // verus!
