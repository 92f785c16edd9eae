//! The right-hand side f(x, y) of the differential equation, as a
//! caller-supplied capability.
//!
//! The solvers treat the equation opaquely: they only evaluate it. The
//! [`Equation`] trait ties each evaluation to a caller-chosen mathematical
//! model (`eval_spec`), which the solver contracts are then stated over.
//! [`Expr`] is the crate's own implementation: a small expression tree over
//! x, y and constants, enough to write the usual demonstration equations.

use vstd::prelude::*;

verus! {

use crate::scalar::{Scalar, spec_add, spec_sub, spec_mul, spec_div};

/// A pure, deterministic, total right-hand side f(x, y).
///
/// `eval` must return exactly the value of the implementor's own model
/// `eval_spec`, and a well-formed scalar, so that the solvers' contracts can
/// speak of every sample they produce.
pub trait Equation {
    /// Whether the equation value itself is well formed (for instance, that
    /// the constants inside an expression tree are valid scalars).
    spec fn inv(&self) -> bool;

    /// The mathematical model of the equation.
    spec fn eval_spec(&self, x: Scalar, y: Scalar) -> Scalar;

    /// Evaluate f at (x, y).
    fn eval(&self, x: Scalar, y: Scalar) -> (r: Scalar)
        requires
            self.inv(),
            x.wf(),
            y.wf(),
        ensures
            r == self.eval_spec(x, y),
            r.wf(),
    ;
}

/// An arithmetic expression over the two variables of the equation.
#[derive(Debug)]
pub enum Expr {
    /// The independent variable x.
    X,
    /// The dependent variable y.
    Y,
    /// A constant scalar.
    Const(Scalar),
    /// Sum of two subexpressions.
    Add(Box<Expr>, Box<Expr>),
    /// Difference of two subexpressions.
    Sub(Box<Expr>, Box<Expr>),
    /// Product of two subexpressions.
    Mul(Box<Expr>, Box<Expr>),
    /// Quotient of two subexpressions.
    Div(Box<Expr>, Box<Expr>),
}

/// All constants inside the expression are well-formed scalars.
pub open spec fn expr_inv(e: Expr) -> bool
    decreases e,
{
    match e {
        Expr::X => true,
        Expr::Y => true,
        Expr::Const(c) => c.wf(),
        Expr::Add(a, b) => expr_inv(*a) && expr_inv(*b),
        Expr::Sub(a, b) => expr_inv(*a) && expr_inv(*b),
        Expr::Mul(a, b) => expr_inv(*a) && expr_inv(*b),
        Expr::Div(a, b) => expr_inv(*a) && expr_inv(*b),
    }
}

/// The value of the expression at (x, y), in the crate's saturating
/// fixed-point arithmetic.
pub open spec fn expr_eval(e: Expr, x: Scalar, y: Scalar) -> Scalar
    decreases e,
{
    match e {
        Expr::X => x,
        Expr::Y => y,
        Expr::Const(c) => c,
        Expr::Add(a, b) => spec_add(expr_eval(*a, x, y), expr_eval(*b, x, y)),
        Expr::Sub(a, b) => spec_sub(expr_eval(*a, x, y), expr_eval(*b, x, y)),
        Expr::Mul(a, b) => spec_mul(expr_eval(*a, x, y), expr_eval(*b, x, y)),
        Expr::Div(a, b) => spec_div(expr_eval(*a, x, y), expr_eval(*b, x, y)),
    }
}

impl Expr {
    /// Evaluate the expression at (x, y).
    pub fn eval_at(&self, x: Scalar, y: Scalar) -> (r: Scalar)
        requires
            expr_inv(*self),
            x.wf(),
            y.wf(),
        ensures
            r == expr_eval(*self, x, y),
            r.wf(),
        decreases *self,
    {
        match self {
            Expr::X => x,
            Expr::Y => y,
            Expr::Const(c) => *c,
            Expr::Add(a, b) => a.eval_at(x, y).add(b.eval_at(x, y)),
            Expr::Sub(a, b) => a.eval_at(x, y).sub(b.eval_at(x, y)),
            Expr::Mul(a, b) => a.eval_at(x, y).mul(b.eval_at(x, y)),
            Expr::Div(a, b) => a.eval_at(x, y).div(b.eval_at(x, y)),
        }
    }
}

impl Equation for Expr {
    open spec fn inv(&self) -> bool {
        expr_inv(*self)
    }

    open spec fn eval_spec(&self, x: Scalar, y: Scalar) -> Scalar {
        expr_eval(*self, x, y)
    }

    fn eval(&self, x: Scalar, y: Scalar) -> (r: Scalar) {
        self.eval_at(x, y)
    }
}

} // verus!
