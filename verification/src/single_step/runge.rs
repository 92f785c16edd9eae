//! Classical fourth-order Runge-Kutta integration.
//!
//! The number of steps is fixed up front as `round((end - start) / step)`,
//! not by a termination test on x, so the final sample may overshoot `end`
//! by less than one step.

use vstd::prelude::*;

verus! {

use crate::equation::Equation;
use crate::scalar::{Scalar, spec_add, spec_mul, spec_div_int};
use crate::{Point, Settings};

/// The settings with the interval end replaced.
pub open spec fn with_end<E>(s: Settings<E>, end: Scalar) -> Settings<E> {
    Settings {
        start: s.start,
        end,
        step: s.step,
        start_condition: s.start_condition,
        function: s.function,
    }
}

/// Number of Runge-Kutta steps: `(end - start) / step` rounded to the
/// nearest integer, half away from zero. A degenerate problem (a non-finite
/// bound or step, an empty interval, or a step of zero) takes zero steps and
/// yields only the initial sample.
pub open spec fn runge_count(start: Scalar, end: Scalar, step: Scalar) -> nat {
    if start.fin && end.fin && step.fin && step.m > 0 && end.m > start.m {
        ((2 * (end.m - start.m) + step.m) / (2 * step.m)) as nat
    } else {
        0
    }
}

/// One classical four-stage Runge-Kutta step of size `h` from point `p`.
pub open spec fn rk_next<E: Equation>(f: E, p: Point, h: Scalar) -> Point {
    let half_h = spec_div_int(h, 2);
    let k1 = spec_mul(h, f.eval_spec(p.x, p.y));
    let k2 = spec_mul(
        h,
        f.eval_spec(spec_add(p.x, half_h), spec_add(p.y, spec_div_int(k1, 2))),
    );
    let k3 = spec_mul(
        h,
        f.eval_spec(spec_add(p.x, half_h), spec_add(p.y, spec_div_int(k2, 2))),
    );
    let k4 = spec_mul(h, f.eval_spec(spec_add(p.x, h), spec_add(p.y, k3)));
    let sum = spec_add(spec_add(spec_add(k1, spec_add(k2, k2)), spec_add(k3, k3)), k4);
    Point { x: spec_add(p.x, h), y: spec_add(p.y, spec_div_int(sum, 6)) }
}

/// The samples after `k` more Runge-Kutta steps from `cur`, appended to the
/// samples `out` already produced.
pub open spec fn runge_steps<E: Equation>(
    f: E,
    h: Scalar,
    cur: Point,
    out: Seq<Point>,
    k: nat,
) -> Seq<Point>
    decreases k,
{
    if k == 0 {
        out
    } else {
        let nxt = rk_next(f, cur, h);
        runge_steps(f, h, nxt, out.push(nxt), (k - 1) as nat)
    }
}

/// The whole Runge-Kutta output for a problem definition.
pub open spec fn runge_seq<E: Equation>(s: Settings<E>) -> Seq<Point> {
    runge_steps(
        s.function,
        s.step,
        s.first_point(),
        seq![s.first_point()],
        runge_count(s.start, s.end, s.step),
    )
}

/// The Runge-Kutta step count as a machine integer.
pub(crate) fn runge_step_count(start: Scalar, end: Scalar, step: Scalar) -> (n: u64)
    requires
        start.wf(),
        end.wf(),
        step.wf(),
    ensures
        n as nat == runge_count(start, end, step),
{
    if start.fin && end.fin && step.m > 0 && end.m > start.m {
        let d: i128 = end.m - start.m;
        let num: i128 = 2 * d + step.m;
        let den: i128 = 2 * step.m;
        let q: u128 = (num as u128) / (den as u128);
        proof {
            vstd::arithmetic::div_mod::lemma_div_is_ordered_by_denominator(
                num as int,
                2,
                den as int,
            );
        }
        q as u64
    } else {
        0
    }
}

/// Runge-Kutta integration of `settings` with the interval end overridden by
/// `end`; the Milne bootstrap integrates the same problem over a shorter
/// interval.
pub(crate) fn runge_with_end<E: Equation>(settings: &Settings<E>, end: Scalar) -> (r: Vec<
    Point,
>)
    requires
        settings.wf(),
        end.wf(),
    ensures
        r@ == runge_seq(with_end(*settings, end)),
        r@.len() == runge_count(settings.start, end, settings.step) + 1,
        r@[0] == settings.first_point(),
        forall|i: int| 0 <= i < r@.len() ==> (#[trigger] r@[i]).wf(),
{
    let ghost s_spec = with_end(*settings, end);
    let n: u64 = runge_step_count(settings.start, end, settings.step);
    let first = Point { x: settings.start, y: settings.start_condition };
    let mut points: Vec<Point> = Vec::new();
    points.push(first);
    let mut current: Point = first;
    let mut i: u64 = 0;
    while i < n
        invariant
            settings.wf(),
            i <= n,
            current.wf(),
            points@.len() == i + 1,
            points@[0] == settings.first_point(),
            points@[points@.len() - 1] == current,
            forall|j: int| 0 <= j < points@.len() ==> (#[trigger] points@[j]).wf(),
            runge_seq(s_spec) == runge_steps(
                settings.function,
                settings.step,
                current,
                points@,
                (n - i) as nat,
            ),
            s_spec == with_end(*settings, end),
            n as nat == runge_count(settings.start, end, settings.step),
        decreases n - i,
    {
        let h = settings.step;
        let half_h = h.halved();
        let k1 = h.mul(settings.function.eval(current.x, current.y));
        let k2 = h.mul(settings.function.eval(current.x.add(half_h), current.y.add(k1.halved())));
        let k3 = h.mul(settings.function.eval(current.x.add(half_h), current.y.add(k2.halved())));
        let k4 = h.mul(settings.function.eval(current.x.add(h), current.y.add(k3)));
        let sum = k1.add(k2.add(k2)).add(k3.add(k3)).add(k4);
        let next = Point { x: current.x.add(h), y: current.y.add(sum.div_int(6)) };
        points.push(next);
        current = next;
        i = i + 1;
    }
    points
}

/// Integrate the problem with the classical fourth-order Runge-Kutta method.
///
/// The result holds exactly `round((end - start) / step) + 1` samples: the
/// initial sample `(start, start_condition)` followed by one sample per
/// step, each obtained from the previous one by `rk_next`.
pub fn solve_runge<E: Equation>(settings: &Settings<E>) -> (r: Vec<Point>)
    requires
        settings.wf(),
    ensures
        r@ == runge_seq(*settings),
        r@.len() == runge_count(settings.start, settings.end, settings.step) + 1,
        r@[0] == settings.first_point(),
        forall|i: int| 0 <= i < r@.len() ==> (#[trigger] r@[i]).wf(),
{
    let r = runge_with_end(settings, settings.end);
    proof {
        assert(with_end(*settings, settings.end) == *settings);
    }
    r
}

} // verus!
