//! Adaptive step control by Runge's rule.
//!
//! The driver runs the selected integrator at the current step and at half
//! that step, estimates the error by Richardson extrapolation on the final
//! samples, and either accepts the coarser run, halves again, or fails.

use vstd::prelude::*;

verus! {

use crate::equation::Equation;
use crate::multi_step::{milna_seq, solve_milna};
use crate::scalar::{Scalar, spec_div_int, spec_sub, spec_le, spec_finite};
use crate::single_step::eiler::{euler_seq, solve_eiler};
use crate::single_step::runge::{runge_seq, solve_runge};
use crate::{Method, Point, Settings, SolveError};

/// Retry budget of the driver: the number of step-halving rounds tried
/// before the requested tolerance is reported unattainable.
pub const MAX_TRIES: u64 = 100;

/// `2` raised to the convergence order of the method, the Richardson
/// denominator: order 2 for modified Euler, order 4 for Runge-Kutta and
/// Milne.
pub open spec fn method_divisor(m: Method) -> int {
    match m {
        Method::Eiler => 4,
        Method::Runge => 16,
        Method::Milna => 16,
    }
}

/// The output of the selected integrator on a problem definition.
pub open spec fn method_points<E: Equation>(m: Method, s: Settings<E>) -> Seq<Point> {
    match m {
        Method::Runge => runge_seq(s),
        Method::Eiler => euler_seq(s),
        Method::Milna => milna_seq(s),
    }
}

/// Some sample of the run has a non-finite ordinate.
pub open spec fn has_non_finite(ps: Seq<Point>) -> bool {
    exists|i: int| 0 <= i < ps.len() && !(#[trigger] ps[i]).y.fin
}

/// The settings with the step halved, as the driver passes them to the next
/// round.
pub open spec fn halved_settings<E>(s: Settings<E>) -> Settings<E> {
    Settings {
        start: s.start,
        end: s.end,
        step: spec_div_int(s.step, 2),
        start_condition: s.start_condition,
        function: s.function,
    }
}

/// The Richardson error estimate of a round: the difference of the final
/// ordinates of the coarse and the fine run, divided by `2` raised to the
/// method's convergence order.
pub open spec fn round_estimate(m: Method, coarse: Seq<Point>, fine: Seq<Point>) -> Scalar {
    spec_div_int(spec_sub(coarse.last().y, fine.last().y), method_divisor(m))
}

/// The driver's remaining rounds, starting from an already computed coarse
/// run. Each round fails on a non-finite ordinate in the coarse run, accepts
/// the coarse run when the error estimate is within the tolerance, and
/// otherwise adopts the halved step and the fine run for the next round.
pub open spec fn driver_loop<E: Equation>(
    coarse: Seq<Point>,
    s: Settings<E>,
    m: Method,
    epsilon: Scalar,
    tries: nat,
) -> Result<Seq<Point>, SolveError>
    decreases tries,
{
    if tries == 0 {
        Result::Err(SolveError::PrecisionUnattainable)
    } else if has_non_finite(coarse) {
        Result::Err(SolveError::Discontinuity)
    } else {
        let s2 = halved_settings(s);
        let fine = method_points(m, s2);
        if spec_le(round_estimate(m, coarse, fine), epsilon) {
            Result::Ok(coarse)
        } else {
            driver_loop(fine, s2, m, epsilon, (tries - 1) as nat)
        }
    }
}

/// What `runge_rule` returns: the driver run on the selected integrator's
/// first output, with the full retry budget.
pub open spec fn runge_rule_spec<E: Equation>(
    s: Settings<E>,
    m: Method,
    epsilon: Scalar,
) -> Result<Seq<Point>, SolveError> {
    driver_loop(method_points(m, s), s, m, epsilon, MAX_TRIES as nat)
}

/// Run the selected integrator once.
fn run_method<E: Equation>(settings: &Settings<E>, method: Method) -> (r: Vec<Point>)
    requires
        settings.wf(),
    ensures
        r@ == method_points(method, *settings),
        r@.len() >= 1,
        forall|i: int| 0 <= i < r@.len() ==> (#[trigger] r@[i]).wf(),
{
    match method {
        Method::Runge => solve_runge(settings),
        Method::Eiler => solve_eiler(settings),
        Method::Milna => solve_milna(settings),
    }
}

/// Whether any sample of the run has a non-finite ordinate.
fn any_non_finite(points: &Vec<Point>) -> (b: bool)
    ensures
        b == has_non_finite(points@),
{
    let mut i: usize = 0;
    while i < points.len()
        invariant
            i <= points@.len(),
            forall|j: int| 0 <= j < i ==> (#[trigger] points@[j]).y.fin,
        decreases points@.len() - i,
    {
        if !points[i].y.is_finite() {
            return true;
        }
        i = i + 1;
    }
    false
}

/// Integrate the problem with the selected method, refining the step until
/// the Richardson error estimate falls within `epsilon`.
///
/// Each round runs the integrator at the current step (the coarse run) and
/// at half that step (the fine run). A non-finite ordinate anywhere in the
/// coarse run fails with `Discontinuity`. When the error estimate — the
/// difference of the two final ordinates divided by `2` raised to the
/// method's convergence order — is within `epsilon`, the coarse (pre-halving)
/// run is returned. Otherwise the halved step is adopted and the fine run
/// becomes the next round's coarse run; after `MAX_TRIES` unsuccessful
/// rounds the driver fails with `PrecisionUnattainable`.
pub fn runge_rule<E: Equation>(settings: Settings<E>, method: Method, epsilon: Scalar) -> (r:
    Result<Vec<Point>, SolveError>)
    requires
        settings.wf(),
        epsilon.wf(),
        spec_le(spec_finite(0), epsilon),
    ensures
        r is Ok <==> runge_rule_spec(settings, method, epsilon) is Ok,
        r is Ok ==> r->Ok_0@ == runge_rule_spec(settings, method, epsilon)->Ok_0,
        r is Err ==> r->Err_0 == runge_rule_spec(settings, method, epsilon)->Err_0,
        r is Ok ==> r->Ok_0@.len() >= 1,
        r is Ok ==> forall|i: int| 0 <= i < r->Ok_0@.len() ==> (#[trigger] r->Ok_0@[i]).wf(),
{
    let mut current = settings;
    let mut results: Vec<Point> = run_method(&current, method);
    let mut t: u64 = 0;
    while t < MAX_TRIES
        invariant
            current.wf(),
            epsilon.wf(),
            t <= MAX_TRIES,
            results@ == method_points(method, current),
            results@.len() >= 1,
            forall|i: int| 0 <= i < results@.len() ==> (#[trigger] results@[i]).wf(),
            runge_rule_spec(settings, method, epsilon) == driver_loop(
                results@,
                current,
                method,
                epsilon,
                (MAX_TRIES - t) as nat,
            ),
        decreases MAX_TRIES - t,
    {
        if any_non_finite(&results) {
            return Err(SolveError::Discontinuity);
        }
        let new_step = current.step.halved();
        current = Settings {
            start: current.start,
            end: current.end,
            step: new_step,
            start_condition: current.start_condition,
            function: current.function,
        };
        let halved_run = run_method(&current, method);
        let divisor: i128 = match method {
            Method::Eiler => 4,
            Method::Runge => 16,
            Method::Milna => 16,
        };
        let estimate = results[results.len() - 1].y.sub(
            halved_run[halved_run.len() - 1].y,
        ).div_int(divisor);
        if estimate.le(epsilon) {
            return Ok(results);
        }
        results = halved_run;
        t = t + 1;
    }
    Err(SolveError::PrecisionUnattainable)
}

} // verus!
