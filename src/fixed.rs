use vstd::prelude::*;

verus! {

/// The fixed-point value of one unit.
pub const SCALE: i64 = 1_000_000_000;

/// A full turn in fixed-point radians (2π rounded down).
pub const TAU: i64 = 6_283_185_307;

/// Half a turn in fixed-point radians.
pub const PI: i64 = 3_141_592_653;

/// Floor of `n / d`, the value of `/` in specifications for a positive divisor.
pub fn div_floor(n: i128, d: i128) -> (r: i128)
    requires
        d > 0,
        n > i128::MIN,
    ensures
        r == n / d,
{
    if n >= 0 {
        n / d
    } else {
        let m: i128 = -n;
        let q: i128 = m / d;
        let rem: i128 = m % d;
        proof {
            assert(m == d * q + rem) by (nonlinear_arith)
                requires q == m / d, rem == m % d, d > 0, m > 0;
        }
        proof {
            vstd::arithmetic::div_mod::lemma_mod_bound(m as int, d as int);
        }
        if rem == 0 {
            proof {
                assert((-q) * d == n) by (nonlinear_arith)
                    requires m == d * q + rem, rem == 0, n == -m;
                lemma_floor_unique(n as int, d as int, -q);
            }
            -q
        } else {
            proof {
                assert((-q - 1) * d <= n < (-q - 1) * d + d) by (nonlinear_arith)
                    requires m == d * q + rem, 0 < rem < d, n == -m;
                lemma_floor_unique(n as int, d as int, -q - 1);
            }
            -q - 1
        }
    }
}

/// A quotient is fixed by the bracket it falls in.
pub proof fn lemma_floor_unique(n: int, d: int, q: int)
    requires
        d > 0,
        q * d <= n < q * d + d,
    ensures
        n / d == q,
{
    let r = n - q * d;
    vstd::arithmetic::div_mod::lemma_fundamental_div_mod_converse(n, d, q, r);
}

/// Quotient rounded toward zero, for a positive divisor.
pub open spec fn tdiv(n: int, d: int) -> int {
    if n >= 0 { n / d } else { -((-n) / d) }
}

/// Quotient of `n` by a positive `d`, rounded toward zero.
pub fn div_trunc(n: i128, d: i128) -> (r: i128)
    requires
        d > 0,
        n > i128::MIN,
    ensures
        r == tdiv(n as int, d as int),
        r * r * (d * d) <= n * n,
{
    let m: i128 = if n >= 0 { n } else { -n };
    let q: i128 = m / d;
    proof {
        vstd::arithmetic::div_mod::lemma_fundamental_div_mod(m as int, d as int);
        vstd::arithmetic::div_mod::lemma_mod_bound(m as int, d as int);
        vstd::arithmetic::div_mod::lemma_div_pos_is_pos(m as int, d as int);
        assert(0 <= q * d <= m) by (nonlinear_arith)
            requires m == d * q + (m as int) % (d as int), 0 <= (m as int) % (d as int), q >= 0, d > 0;
        assert(q * q * (d * d) <= m * m) by (nonlinear_arith)
            requires 0 <= q * d <= m;
        assert(m * m == n * n) by (nonlinear_arith)
            requires m == n || m == -n;
    }
    let r: i128 = if n >= 0 { q } else { -q };
    proof {
        assert(r * r == q * q) by (nonlinear_arith)
            requires r == q || r == -q;
    }
    r
}

/// Fixed-point product, rounded down: `a * b / SCALE`.
pub open spec fn fx(a: int, b: int) -> int {
    (a * b) / (SCALE as int)
}

/// Fixed-point product of two values, rounded down.
pub fn fx_mul(a: i64, b: i64) -> (r: i128)
    ensures
        r == fx(a as int, b as int),
{
    proof {
        assert(-0x8000_0000_0000_0000 * 0x8000_0000_0000_0000 <= (a as int) * (b as int)
            <= 0x8000_0000_0000_0000 * 0x8000_0000_0000_0000) by (nonlinear_arith)
            requires -0x8000_0000_0000_0000 <= a <= 0x7fff_ffff_ffff_ffff,
                -0x8000_0000_0000_0000 <= b <= 0x7fff_ffff_ffff_ffff;
    }
    div_floor((a as i128) * (b as i128), SCALE as i128)
}

/// `x` reduced into the half-open turn `[0, TAU)`.
pub open spec fn norm_angle(x: int) -> int {
    x % (TAU as int)
}

/// Brings an angle into `[0, TAU)` by whole turns.
pub fn normalize_angle(x: i64) -> (r: i64)
    ensures
        r == norm_angle(x as int),
        0 <= r < TAU,
{
    let t: i128 = TAU as i128;
    let q: i128 = div_floor(x as i128, t);
    let r: i128 = (x as i128) - q * t;
    proof {
        vstd::arithmetic::div_mod::lemma_fundamental_div_mod(x as int, TAU as int);
        vstd::arithmetic::div_mod::lemma_mod_bound(x as int, TAU as int);
    }
    r as i64
}

/// Floor of the square root.
pub open spec fn is_isqrt(n: int, r: int) -> bool {
    0 <= r && r * r <= n < (r + 1) * (r + 1)
}

/// The square root of `n`, rounded down.
pub open spec fn sqrt_floor(n: int) -> int {
    choose|r: int| is_isqrt(n, r)
}

/// The rounded-down square root is unique.
pub proof fn lemma_isqrt_unique(n: int, r1: int, r2: int)
    requires
        is_isqrt(n, r1),
        is_isqrt(n, r2),
    ensures
        r1 == r2,
{
    if r1 < r2 {
        assert((r1 + 1) * (r1 + 1) <= r2 * r2) by (nonlinear_arith)
            requires 0 <= r1 < r2;
    } else if r2 < r1 {
        assert((r2 + 1) * (r2 + 1) <= r1 * r1) by (nonlinear_arith)
            requires 0 <= r2 < r1;
    }
}

/// Square root of `n`, rounded down.
pub fn isqrt(n: u128) -> (r: u128)
    ensures
        is_isqrt(n as int, r as int),
        r == sqrt_floor(n as int),
{
    // bisection on [lo, hi): lo * lo <= n < hi * hi
    let mut lo: u128 = 0;
    let mut hi: u128 = 0x1_0000_0000_0000_0000;
    proof {
        assert((hi as int) * (hi as int) == 0x1_0000_0000_0000_0000_0000_0000_0000_0000);
    }
    while hi - lo > 1
        invariant
            lo < hi <= 0x1_0000_0000_0000_0000,
            lo * lo <= n,
            n < (hi as int) * (hi as int),
        decreases hi - lo,
    {
        let mid: u128 = lo + (hi - lo) / 2;
        proof {
            assert(mid * mid < 0x1_0000_0000_0000_0000 * 0x1_0000_0000_0000_0000) by (nonlinear_arith)
                requires mid < 0x1_0000_0000_0000_0000;
        }
        if mid * mid <= n {
            lo = mid;
        } else {
            hi = mid;
        }
    }
    proof {
        assert(hi == lo + 1);
        assert(is_isqrt(n as int, lo as int));
        lemma_isqrt_unique(n as int, lo as int, sqrt_floor(n as int));
    }
    lo
}

/// The cosine and sine of one angle in fixed point, as the caller computed them.
#[derive(Clone, Copy, Debug, PartialEq, Eq, Structural)]
pub struct Rot {
    pub cos: i64,
    pub sin: i64,
}

impl Rot {
    /// The pair lies on or inside the unit circle.
    pub open spec fn wf(self) -> bool {
        self.cos * self.cos + self.sin * self.sin <= SCALE * SCALE
    }

    /// Each part of a well-formed pair lies within one unit.
    pub proof fn lemma_parts_bounded(self)
        requires
            self.wf(),
        ensures
            -SCALE <= self.cos <= SCALE,
            -SCALE <= self.sin <= SCALE,
    {
        let c = self.cos as int;
        let s = self.sin as int;
        let k = SCALE as int;
        assert(-k <= c <= k) by (nonlinear_arith)
            requires c * c + s * s <= k * k, k > 0;
        assert(-k <= s <= k) by (nonlinear_arith)
            requires c * c + s * s <= k * k, k > 0;
    }

    /// The pair for `cos`, `sin`, or `None` where it lies outside the unit circle.
    pub fn new(cos: i64, sin: i64) -> (r: Option<Rot>)
        ensures
            r == (if (Rot { cos, sin }).wf() {
                Some(Rot { cos, sin })
            } else {
                None::<Rot>
            }),
    {
        if cos < -SCALE || cos > SCALE || sin < -SCALE || sin > SCALE {
            proof {
                assert(!(Rot { cos, sin }).wf()) by (nonlinear_arith)
                    requires cos < -SCALE || cos > SCALE || sin < -SCALE || sin > SCALE;
            }
            return None;
        }
        let c = cos as i128;
        let s = sin as i128;
        proof {
            assert(0 <= c * c <= 1_000_000_000_000_000_000) by (nonlinear_arith)
                requires -1_000_000_000 <= c <= 1_000_000_000;
            assert(0 <= s * s <= 1_000_000_000_000_000_000) by (nonlinear_arith)
                requires -1_000_000_000 <= s <= 1_000_000_000;
        }
        let unit_sq: i128 = 1_000_000_000_000_000_000;
        assert(unit_sq == SCALE * SCALE);
        if c * c + s * s <= unit_sq {
            Some(Rot { cos, sin })
        } else {
            None
        }
    }

    /// The pair of half a turn.
    pub fn half_turn() -> (r: Rot)
        ensures
            r == (Rot { cos: -SCALE as i64, sin: 0 }),
            r.wf(),
    {
        let r = Rot { cos: -SCALE, sin: 0 };
        assert(r.wf()) by (nonlinear_arith)
            requires r.cos == -SCALE, r.sin == 0;
        r
    }

    /// The pair of the zero angle.
    pub fn identity() -> (r: Rot)
        ensures
            r == (Rot { cos: SCALE, sin: 0 }),
            r.wf(),
    {
        Rot { cos: SCALE, sin: 0 }
    }
}

} // verus!
