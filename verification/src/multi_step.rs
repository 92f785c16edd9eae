//! Milne predictor-corrector (fourth-order multi-step) integration.
//!
//! The first five samples are bootstrapped with the Runge-Kutta integrator
//! over `[start, start + 4 * step)`; after that the method advances by a
//! rolling window of the five most recent samples — each step drops the
//! oldest and appends the new corrected sample — with the abscissa
//! continuing by `step`, and applies the corrector formula exactly once per
//! step (it is not iterated to a fixed point).

use vstd::prelude::*;

verus! {

use crate::equation::Equation;
use crate::scalar::{Scalar, spec_add, spec_sub, spec_mul, spec_div_int, spec_mul_int};
use crate::single_step::runge::{runge_seq, runge_with_end, with_end};
use crate::{Point, Settings};

/// Number of post-bootstrap Milne steps: `(end - start) / step` truncated
/// toward zero, less two, and never negative. A degenerate problem (a
/// non-finite bound or step, an empty interval, or a step of zero) takes
/// zero steps.
pub open spec fn milna_count(start: Scalar, end: Scalar, step: Scalar) -> nat {
    if start.fin && end.fin && step.fin && step.m > 0 && end.m > start.m {
        let t = (end.m - start.m) / (step.m as int);
        if t >= 2 {
            (t - 2) as nat
        } else {
            0
        }
    } else {
        0
    }
}

/// One Milne predictor-corrector step: `out` is the run so far (at least
/// five samples), the window `w` is its last five samples oldest to newest,
/// and the new sample stands one `step` after the newest. With `i1`, `i2`,
/// `i3` the equation's slopes at the three most recent prior samples
/// (excluding the newest), the predictor is
/// `w[4].y + 4/3 * step * (2 * i3 - i2 + 2 * i1)` and the corrector —
/// applied once — is `w[2].y + step/3 * (i2 + 4 * i1 + f(x_next, predictor))`.
pub open spec fn milna_next<E: Equation>(f: E, h: Scalar, out: Seq<Point>) -> Point {
    let w = out.subrange(out.len() - 5, out.len() as int);
    let i3 = f.eval_spec(w[3].x, w[3].y);
    let i2 = f.eval_spec(w[2].x, w[2].y);
    let i1 = f.eval_spec(w[1].x, w[1].y);
    let nx = spec_add(w[4].x, h);
    let predictor = spec_add(
        w[4].y,
        spec_mul(
            spec_div_int(spec_mul_int(h, 4), 3),
            spec_add(spec_sub(spec_mul_int(i3, 2), i2), spec_mul_int(i1, 2)),
        ),
    );
    let corrected = spec_add(
        w[2].y,
        spec_mul(
            spec_div_int(h, 3),
            spec_add(spec_add(i2, spec_mul_int(i1, 4)), f.eval_spec(nx, predictor)),
        ),
    );
    Point { x: nx, y: corrected }
}

/// The samples after `k` more Milne steps, appended to the samples `out`
/// already produced; each step reads the five most recent samples.
pub open spec fn milna_steps<E: Equation>(f: E, h: Scalar, out: Seq<Point>, k: nat) -> Seq<Point>
    decreases k,
{
    if k == 0 {
        out
    } else {
        milna_steps(f, h, out.push(milna_next(f, h, out)), (k - 1) as nat)
    }
}

/// The whole Milne output for a problem definition: the five bootstrap
/// samples, then one sample per Milne step, the abscissa advancing by `step`
/// throughout. When the bootstrap run does not come to exactly five samples
/// (a degenerate step size), it is returned unchanged and no Milne step is
/// taken.
pub open spec fn milna_seq<E: Equation>(s: Settings<E>) -> Seq<Point> {
    let boot_end = spec_add(s.start, spec_mul_int(s.step, 4));
    let boot = runge_seq(with_end(s, boot_end));
    if boot.len() == 5 {
        milna_steps(s.function, s.step, boot, milna_count(s.start, s.end, s.step))
    } else {
        boot
    }
}

/// The Milne step count as a machine integer.
fn milna_step_count(start: Scalar, end: Scalar, step: Scalar) -> (n: u64)
    requires
        start.wf(),
        end.wf(),
        step.wf(),
    ensures
        n as nat == milna_count(start, end, step),
{
    if start.fin && end.fin && step.m > 0 && end.m > start.m {
        let d: i128 = end.m - start.m;
        let t: u128 = (d as u128) / (step.m as u128);
        proof {
            vstd::arithmetic::div_mod::lemma_div_is_ordered_by_denominator(d as int, 1, step.m as int);
        }
        if t >= 2 {
            (t - 2) as u64
        } else {
            0
        }
    } else {
        0
    }
}

/// Integrate the problem with the Milne predictor-corrector method.
///
/// The first five samples are exactly the Runge-Kutta samples over
/// `[start, start + 4 * step)`; each later sample is obtained from the five
/// most recent ones by `milna_next`, so the abscissae keep advancing by
/// `step` past the bootstrap.
pub fn solve_milna<E: Equation>(settings: &Settings<E>) -> (r: Vec<Point>)
    requires
        settings.wf(),
    ensures
        r@ == milna_seq(*settings),
        r@.len() >= 1,
        r@[0] == settings.first_point(),
        forall|i: int| 0 <= i < r@.len() ==> (#[trigger] r@[i]).wf(),
{
    let boot_end = settings.start.add(settings.step.mul_int(4));
    let boot = runge_with_end(settings, boot_end);
    if boot.len() != 5 {
        return boot;
    }
    let mut w: [Point; 5] = [boot[0], boot[1], boot[2], boot[3], boot[4]];
    let mut points: Vec<Point> = boot;
    proof {
        assert(w@ =~= points@.subrange(points@.len() - 5, points@.len() as int));
    }
    let total: u64 = milna_step_count(settings.start, settings.end, settings.step);
    let mut k: u64 = 0;
    while k < total
        invariant
            settings.wf(),
            k <= total,
            points@.len() >= 5,
            points@[0] == settings.first_point(),
            forall|j: int| 0 <= j < points@.len() ==> (#[trigger] points@[j]).wf(),
            w@ == points@.subrange(points@.len() - 5, points@.len() as int),
            milna_seq(*settings) == milna_steps(
                settings.function,
                settings.step,
                points@,
                (total - k) as nat,
            ),
        decreases total - k,
    {
        let i3 = settings.function.eval(w[3].x, w[3].y);
        let i2 = settings.function.eval(w[2].x, w[2].y);
        let i1 = settings.function.eval(w[1].x, w[1].y);
        let nx = w[4].x.add(settings.step);
        let predictor = w[4].y.add(
            settings.step.mul_int(4).div_int(3).mul(i3.mul_int(2).sub(i2).add(i1.mul_int(2))),
        );
        let corrected = w[2].y.add(
            settings.step.div_int(3).mul(
                i2.add(i1.mul_int(4)).add(settings.function.eval(nx, predictor)),
            ),
        );
        let np = Point { x: nx, y: corrected };
        proof {
            assert(np == milna_next(settings.function, settings.step, points@));
        }
        points.push(np);
        w = [w[1], w[2], w[3], w[4], np];
        proof {
            assert(w@ =~= points@.subrange(points@.len() - 5, points@.len() as int));
        }
        k = k + 1;
    }
    points
}

} // verus!
