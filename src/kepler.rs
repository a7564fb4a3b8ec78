use vstd::prelude::*;
use crate::error::OrbitError;
use crate::fixed::{div_floor, fx, fx_mul, norm_angle, normalize_angle, Rot, SCALE};

verus! {

/// Largest residual of Kepler's equation that counts as solved (1e-6 rad).
pub const EPSILON: i64 = 1_000;

/// Number of Newton steps after which the solver gives up.
pub const MAX_ITERATIONS: u32 = 50;

/// How a run of the solver ended.
#[derive(Clone, Copy, Debug, PartialEq, Eq, Structural)]
pub enum SolverOutcome {
    /// `eccentric_anomaly` satisfies Kepler's equation within `EPSILON`,
    /// found at evaluation number `iterations`.
    Converged { eccentric_anomaly: i64, iterations: u32 },
    /// No estimate came within `EPSILON` in `MAX_ITERATIONS` evaluations;
    /// `best_estimate` had the smallest residual, which was `residual`.
    NotConverged { best_estimate: i64, iterations: u32, residual: i64 },
}

/// What one step of the solver asks of its caller.
#[derive(Clone, Copy, Debug, PartialEq, Eq, Structural)]
pub enum SolverStep {
    /// Supply the cosine and sine of the new estimate and step again.
    Continue,
    /// The run has ended.
    Done(SolverOutcome),
}

/// Residual `M - (E - e·sin E)` of Kepler's equation in fixed point, for the
/// sine `sin_e` of the estimate `ecc`.
pub open spec fn residual_of(mean: int, e: int, ecc: int, sin_e: int) -> int {
    mean - (ecc - fx(e, sin_e))
}

/// `x` limited to `[lo, hi]`.
pub open spec fn clamp(x: int, lo: int, hi: int) -> int {
    if x < lo { lo } else if x > hi { hi } else { x }
}

/// The Newton step `E - (E - e·sin E - M) / (1 - e·cos E)`, rounded down and
/// kept within one radian of `M`, where every root lies.
pub open spec fn newton_next(mean: int, e: int, ecc: int, rot: Rot) -> int {
    let f = -residual_of(mean, e, ecc, rot.sin as int);
    let d = SCALE * SCALE - e * rot.cos;
    clamp(ecc - (f * SCALE * SCALE) / d, mean - SCALE, mean + SCALE)
}

/// The state of the solver as a mathematical value.
pub struct SolverView {
    pub mean_anomaly: int,
    pub eccentricity: int,
    pub estimate: int,
    pub iterations: int,
    pub best_estimate: int,
    pub best_residual: int,
    pub outcome: Option<SolverOutcome>,
}

/// Newton–Raphson solver for Kepler's equation `M = E - e·sin E`.
///
/// The caller evaluates the sine and cosine of each estimate and hands them
/// to `step`; the solver decides what comes next. The first estimate is `M`
/// itself, so equal inputs always give equal runs.
pub struct KeplerSolver {
    mean_anomaly: i64,
    eccentricity: i64,
    estimate: i64,
    iterations: u32,
    best_estimate: i64,
    best_residual: i64,
    outcome: Option<SolverOutcome>,
}

/// Absolute value.
pub open spec fn abs(x: int) -> int {
    if x < 0 { -x } else { x }
}

impl View for KeplerSolver {
    type V = SolverView;

    closed spec fn view(&self) -> SolverView {
        SolverView {
            mean_anomaly: self.mean_anomaly as int,
            eccentricity: self.eccentricity as int,
            estimate: self.estimate as int,
            iterations: self.iterations as int,
            best_estimate: self.best_estimate as int,
            best_residual: self.best_residual as int,
            outcome: self.outcome,
        }
    }
}

impl KeplerSolver {
    /// The solver's invariant: the mean anomaly lies in `[0, TAU)`, the
    /// eccentricity in `[0, 1)`, and the estimate within one radian of `M`.
    pub open spec fn wf(&self) -> bool {
        let v = self@;
        &&& 0 <= v.mean_anomaly < crate::fixed::TAU
        &&& 0 <= v.eccentricity < SCALE
        &&& v.mean_anomaly - SCALE <= v.estimate <= v.mean_anomaly + SCALE
        &&& 0 <= v.iterations <= MAX_ITERATIONS
        &&& (v.iterations > 0 ==> abs(v.best_residual) <= 3 * SCALE)
        &&& (v.outcome.is_none() ==> v.iterations < MAX_ITERATIONS)
    }

    /// A solver for `mean_anomaly` (reduced into `[0, TAU)`) and
    /// `eccentricity`; `InvalidElements` exactly when the eccentricity lies
    /// outside `[0, 1)`.
    pub fn new(mean_anomaly: i64, eccentricity: i64) -> (r: Result<KeplerSolver, OrbitError>)
        ensures
            (0 <= eccentricity < SCALE) <==> r.is_ok(),
            r.is_err() ==> r == Err::<KeplerSolver, OrbitError>(OrbitError::InvalidElements),
            r.is_ok() ==> ({
                let v = r.unwrap()@;
                &&& r.unwrap().wf()
                &&& v.mean_anomaly == norm_angle(mean_anomaly as int)
                &&& v.eccentricity == eccentricity
                &&& v.estimate == v.mean_anomaly
                &&& v.iterations == 0
                &&& v.outcome.is_none()
            }),
    {
        if eccentricity < 0 || eccentricity >= SCALE {
            return Err(OrbitError::InvalidElements);
        }
        let m = normalize_angle(mean_anomaly);
        Ok(KeplerSolver {
            mean_anomaly: m,
            eccentricity,
            estimate: m,
            iterations: 0,
            best_estimate: m,
            best_residual: 0,
            outcome: None,
        })
    }

    /// The estimate whose cosine and sine the next `step` expects.
    pub fn estimate(&self) -> (r: i64)
        ensures
            r == self@.estimate,
    {
        self.estimate
    }

    /// How the run ended, if it has.
    pub fn outcome(&self) -> (r: Option<SolverOutcome>)
        ensures
            r == self@.outcome,
    {
        self.outcome
    }

    /// One evaluation of Kepler's equation at the current estimate, whose
    /// cosine and sine are `rot`.
    ///
    /// Once the run has ended, every further step returns its outcome and
    /// changes nothing. Otherwise: if the residual is within `EPSILON` the run
    /// ends converged on this estimate; if this was evaluation number
    /// `MAX_ITERATIONS` it ends unconverged with the best estimate seen;
    /// else the estimate takes one Newton step.
    pub fn step(&mut self, rot: Rot) -> (r: SolverStep)
        requires
            old(self).wf(),
            rot.wf(),
        ensures
            final(self).wf(),
            final(self)@.mean_anomaly == old(self)@.mean_anomaly,
            final(self)@.eccentricity == old(self)@.eccentricity,
            old(self)@.outcome.is_some() ==> *final(self) == *old(self)
                && r == SolverStep::Done(old(self)@.outcome.unwrap()),
            old(self)@.outcome.is_none() ==> ({
                let o = old(self)@;
                let res = residual_of(o.mean_anomaly, o.eccentricity, o.estimate, rot.sin as int);
                let n = o.iterations + 1;
                let better = o.iterations == 0 || abs(res) < abs(o.best_residual);
                let best_e = if better { o.estimate } else { o.best_estimate };
                let best_r = if better { res } else { o.best_residual };
                &&& final(self)@.iterations == n
                &&& abs(res) <= EPSILON ==> {
                    &&& r == SolverStep::Done(SolverOutcome::Converged {
                        eccentric_anomaly: o.estimate as i64,
                        iterations: n as u32,
                    })
                    &&& final(self)@.outcome == Some(SolverOutcome::Converged {
                        eccentric_anomaly: o.estimate as i64,
                        iterations: n as u32,
                    })
                }
                &&& abs(res) > EPSILON && n == MAX_ITERATIONS ==> {
                    &&& r == SolverStep::Done(SolverOutcome::NotConverged {
                        best_estimate: best_e as i64,
                        iterations: n as u32,
                        residual: best_r as i64,
                    })
                    &&& final(self)@.outcome == Some(SolverOutcome::NotConverged {
                        best_estimate: best_e as i64,
                        iterations: n as u32,
                        residual: best_r as i64,
                    })
                }
                &&& abs(res) > EPSILON && n < MAX_ITERATIONS ==> {
                    &&& r == SolverStep::Continue
                    &&& final(self)@.outcome.is_none()
                    &&& final(self)@.estimate == newton_next(
                        o.mean_anomaly, o.eccentricity, o.estimate, rot)
                    &&& final(self)@.best_estimate == best_e
                    &&& final(self)@.best_residual == best_r
                }
            }),
            // a converged estimate solves Kepler's equation within EPSILON
            old(self)@.outcome.is_none() ==> (r matches SolverStep::Done(
                SolverOutcome::Converged { eccentric_anomaly, .. })
                ==> eccentric_anomaly == old(self)@.estimate
                && abs(residual_of(old(self)@.mean_anomaly, old(self)@.eccentricity,
                    eccentric_anomaly as int, rot.sin as int)) <= EPSILON),
    {
        if let Some(o) = self.outcome {
            return SolverStep::Done(o);
        }
        proof {
            rot.lemma_parts_bounded();
            assert(-SCALE <= fx(self.eccentricity as int, rot.sin as int) <= SCALE) by {
                let e = self.eccentricity as int;
                let s = rot.sin as int;
                assert(-SCALE * SCALE <= e * s <= SCALE * SCALE) by (nonlinear_arith)
                    requires 0 <= e < SCALE, -SCALE <= s <= SCALE;
                vstd::arithmetic::div_mod::lemma_div_is_ordered(-SCALE * SCALE, e * s, SCALE as int);
                vstd::arithmetic::div_mod::lemma_div_is_ordered(e * s, SCALE * SCALE, SCALE as int);
                vstd::arithmetic::div_mod::lemma_div_multiples_vanish(-SCALE as int, SCALE as int);
                vstd::arithmetic::div_mod::lemma_div_multiples_vanish(SCALE as int, SCALE as int);
            }
        }
        let e_sin = fx_mul(self.eccentricity, rot.sin);
        let res: i128 = self.mean_anomaly as i128 - (self.estimate as i128 - e_sin);
        let abs_res: i128 = if res < 0 { -res } else { res };
        let n: u32 = self.iterations + 1;
        let better = self.iterations == 0 || abs_res < (if self.best_residual < 0 {
            -(self.best_residual as i128)
        } else {
            self.best_residual as i128
        });
        if better {
            self.best_estimate = self.estimate;
            self.best_residual = res as i64;
        }
        self.iterations = n;
        if abs_res <= EPSILON as i128 {
            let o = SolverOutcome::Converged { eccentric_anomaly: self.estimate, iterations: n };
            self.outcome = Some(o);
            return SolverStep::Done(o);
        }
        if n >= MAX_ITERATIONS {
            let o = SolverOutcome::NotConverged {
                best_estimate: self.best_estimate,
                iterations: n,
                residual: self.best_residual,
            };
            self.outcome = Some(o);
            return SolverStep::Done(o);
        }
        let s = SCALE as i128;
        let e = self.eccentricity as i128;
        let c = rot.cos as i128;
        proof {
            assert(s * (s - e) <= s * s - e * c) by (nonlinear_arith)
                requires 0 <= e < s, -s <= c <= s;
            assert(0 < s * (s - e)) by (nonlinear_arith)
                requires 0 <= e < s;
            assert(-s * s <= e * c <= s * s) by (nonlinear_arith)
                requires 0 <= e < s, -s <= c <= s;
            assert(-4 * s * s * s <= (-res) * s * s <= 4 * s * s * s) by (nonlinear_arith)
                requires -3 * s <= res <= 3 * s, s == SCALE;
        }
        let f: i128 = -res;
        let d: i128 = s * s - e * c;
        let delta = div_floor(f * s * s, d);
        proof {
            // |delta| <= |f| s^2 / d + 1 <= 4 s^3 / s + 1
            vstd::arithmetic::div_mod::lemma_div_is_ordered_by_denominator(4 * s * s * s, s as int, d as int);
            vstd::arithmetic::div_mod::lemma_div_is_ordered(f * s * s, 4 * s * s * s, d as int);
            vstd::arithmetic::div_mod::lemma_div_is_ordered(-4 * s * s * s, f * s * s, d as int);
            vstd::arithmetic::div_mod::lemma_fundamental_div_mod(-4 * s * s * s, d as int);
            vstd::arithmetic::div_mod::lemma_mod_bound(-4 * s * s * s, d as int);
            vstd::arithmetic::div_mod::lemma_div_multiples_vanish(4 * s * s, s as int);
            let lo = (-4 * s * s * s) / (d as int);
            assert(lo >= -4 * s * s) by (nonlinear_arith)
                requires lo * d + (-4 * s * s * s) % (d as int) == -4 * s * s * s,
                    0 <= (-4 * s * s * s) % (d as int) < d, d >= s * (s - e), 0 <= e < s, s > 0;
            assert(4 * s * s * s == s * (4 * s * s)) by (nonlinear_arith);
        }
        let raw: i128 = self.estimate as i128 - delta;
        let lo: i128 = self.mean_anomaly as i128 - s;
        let hi: i128 = self.mean_anomaly as i128 + s;
        let next: i128 = if raw < lo { lo } else if raw > hi { hi } else { raw };
        self.estimate = next as i64;
        SolverStep::Continue
    }
}

} // verus!
