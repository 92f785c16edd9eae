//! Modified Euler (second-order predictor-corrector) integration.
//!
//! The run advances by `step` and stops the moment the next abscissa would
//! reach or pass the interval end, so the final sample may lie strictly
//! before `end`. A fixed iteration cap guards against a step that never
//! reaches the end; on reaching the cap the sequence is simply truncated.

use vstd::prelude::*;

verus! {

use crate::equation::Equation;
use crate::scalar::{Scalar, spec_add, spec_mul, spec_div_int, spec_lt};
use crate::{Point, Settings};

/// Cap on the number of modified-Euler steps in one run.
pub const MAX_ITERATIONS: u64 = 1000;

/// One modified-Euler step of size `h` from point `p`: a forward-Euler
/// predictor followed by one trapezoidal correction.
pub open spec fn euler_next<E: Equation>(f: E, p: Point, h: Scalar) -> Point {
    let slope = f.eval_spec(p.x, p.y);
    let predictor = spec_add(p.y, spec_mul(h, slope));
    let nx = spec_add(p.x, h);
    let ny = spec_add(
        p.y,
        spec_mul(spec_div_int(h, 2), spec_add(slope, f.eval_spec(nx, predictor))),
    );
    Point { x: nx, y: ny }
}

/// The samples after at most `fuel` more modified-Euler steps from `cur`,
/// appended to the samples `out` already produced; the run stops early the
/// moment the next abscissa fails to stay below `end`.
pub open spec fn euler_steps<E: Equation>(
    f: E,
    end: Scalar,
    h: Scalar,
    cur: Point,
    out: Seq<Point>,
    fuel: nat,
) -> Seq<Point>
    decreases fuel,
{
    if fuel == 0 {
        out
    } else {
        let nxt = euler_next(f, cur, h);
        if !spec_lt(nxt.x, end) {
            out
        } else {
            euler_steps(f, end, h, nxt, out.push(nxt), (fuel - 1) as nat)
        }
    }
}

/// The whole modified-Euler output for a problem definition.
pub open spec fn euler_seq<E: Equation>(s: Settings<E>) -> Seq<Point> {
    euler_steps(
        s.function,
        s.end,
        s.step,
        s.first_point(),
        seq![s.first_point()],
        MAX_ITERATIONS as nat,
    )
}

/// Integrate the problem with the modified Euler method.
///
/// The result starts with `(start, start_condition)` and each later sample
/// is obtained from the previous one by `euler_next`; it ends as soon as the
/// next abscissa would reach or pass `end`, or after `MAX_ITERATIONS` steps,
/// whichever comes first.
pub fn solve_eiler<E: Equation>(settings: &Settings<E>) -> (r: Vec<Point>)
    requires
        settings.wf(),
    ensures
        r@ == euler_seq(*settings),
        1 <= r@.len() <= MAX_ITERATIONS + 1,
        r@[0] == settings.first_point(),
        forall|i: int| 0 <= i < r@.len() ==> (#[trigger] r@[i]).wf(),
{
    let first = Point { x: settings.start, y: settings.start_condition };
    let mut points: Vec<Point> = Vec::new();
    points.push(first);
    let mut current: Point = first;
    let mut i: u64 = 0;
    while i < MAX_ITERATIONS
        invariant
            settings.wf(),
            i <= MAX_ITERATIONS,
            current.wf(),
            points@.len() == i + 1,
            points@[0] == settings.first_point(),
            points@[points@.len() - 1] == current,
            forall|j: int| 0 <= j < points@.len() ==> (#[trigger] points@[j]).wf(),
            euler_seq(*settings) == euler_steps(
                settings.function,
                settings.end,
                settings.step,
                current,
                points@,
                (MAX_ITERATIONS - i) as nat,
            ),
        decreases MAX_ITERATIONS - i,
    {
        let slope = settings.function.eval(current.x, current.y);
        let predictor = current.y.add(settings.step.mul(slope));
        let next_x = current.x.add(settings.step);
        let next_y = current.y.add(
            settings.step.halved().mul(slope.add(settings.function.eval(next_x, predictor))),
        );
        let next = Point { x: next_x, y: next_y };
        if !next_x.lt(settings.end) {
            return points;
        }
        points.push(next);
        current = next;
        i = i + 1;
    }
    points
}

} // verus!
