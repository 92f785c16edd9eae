//! Numerical integration of first-order ordinary differential equations
//! y' = f(x, y) over a fixed interval, with three classical methods
//! (modified Euler, fourth-order Runge-Kutta, Milne predictor-corrector)
//! and an adaptive step-halving driver based on Runge's rule.
//!
//! All arithmetic is carried out in the crate's own saturating fixed-point
//! type [`scalar::Scalar`], so every numeric step has an exact mathematical
//! model that the contracts speak of.

pub mod correction;
pub mod equation;
pub mod laws;
pub mod multi_step;
pub mod scalar;
pub mod single_step;

use vstd::prelude::*;

verus! {

use crate::equation::Equation;
use crate::scalar::Scalar;

/// One (x, y) point of an approximated solution curve.
#[derive(Clone, Copy, Debug, PartialEq, Eq, Structural)]
pub struct Point {
    pub x: Scalar,
    pub y: Scalar,
}

impl Point {
    /// Both coordinates are valid scalars.
    pub open spec fn wf(self) -> bool {
        self.x.wf() && self.y.wf()
    }
}

/// The problem definition: the interval `[start, end)`, the step, the
/// starting value y(start), and the equation y' = f(x, y).
#[derive(Clone, Debug)]
pub struct Settings<E> {
    /// Left end of the integration interval.
    pub start: Scalar,
    /// Right end of the integration interval (excluded).
    pub end: Scalar,
    /// The x-increment between consecutive samples.
    pub step: Scalar,
    /// The starting value y(start).
    pub start_condition: Scalar,
    /// The right-hand side f of the equation.
    pub function: E,
}

impl<E: Equation> Settings<E> {
    /// All numeric fields are valid scalars and the equation is well formed.
    pub open spec fn wf(self) -> bool {
        self.start.wf() && self.end.wf() && self.step.wf() && self.start_condition.wf()
            && self.function.inv()
    }

    /// The first sample of every integration run.
    pub open spec fn first_point(self) -> Point {
        Point { x: self.start, y: self.start_condition }
    }
}

/// The integration method the adaptive driver runs.
#[derive(Clone, Copy, Debug, PartialEq, Eq, Structural)]
pub enum Method {
    /// Classical fourth-order Runge-Kutta (convergence order 4).
    Runge,
    /// Modified Euler predictor-corrector (convergence order 2).
    Eiler,
    /// Milne predictor-corrector (convergence order 4).
    Milna,
}

/// A terminal failure of the adaptive driver.
#[derive(Clone, Copy, Debug, PartialEq, Eq, Structural)]
pub enum SolveError {
    /// The equation produced a non-finite value at the current step size.
    Discontinuity,
    /// The retry budget ran out while seeking the requested tolerance.
    PrecisionUnattainable,
}

impl SolveError {
    /// A human-readable description of the failure.
    pub fn message(self) -> (r: &'static str)
        ensures
            self is Discontinuity ==> r@ =~= "function has a discontinuity on the range specified; try another range or start condition"@,
            self is PrecisionUnattainable ==> r@ =~= "too high precision required; the retry budget was exhausted before it was achieved"@,
    {
        match self {
            SolveError::Discontinuity => "function has a discontinuity on the range specified; try another range or start condition",
            SolveError::PrecisionUnattainable => "too high precision required; the retry budget was exhausted before it was achieved",
        }
    }
}

} // verus!
