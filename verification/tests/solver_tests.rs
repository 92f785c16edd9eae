//! Behavioural tests of the three integrators and the adaptive driver.

use ode_solver::correction::runge_rule;
use ode_solver::equation::Expr;
use ode_solver::multi_step::solve_milna;
use ode_solver::scalar::{Scalar, SCALE};
use ode_solver::single_step::eiler::solve_eiler;
use ode_solver::single_step::runge::solve_runge;
use ode_solver::{Method, Point, Settings, SolveError};

fn s(i: i64) -> Scalar {
    Scalar::from_int(i)
}

fn settings(start: i64, end: i64, step_num: i64, step_den: i64, y0: i64, f: Expr) -> Settings<Expr> {
    Settings {
        start: s(start),
        end: s(end),
        step: s(step_num).div(s(step_den)),
        start_condition: s(y0),
        function: f,
    }
}

fn mant(v: Scalar) -> i128 {
    v.mantissa().expect("expected a finite scalar")
}

#[test]
fn scalar_arithmetic_is_exact_on_integers() {
    assert_eq!(mant(s(3).add(s(4))), 7 * SCALE);
    assert_eq!(mant(s(3).sub(s(5))), -2 * SCALE);
    assert_eq!(mant(s(3).mul(s(4))), 12 * SCALE);
    assert_eq!(mant(s(3).div(s(2))), 3 * SCALE / 2);
    assert_eq!(mant(s(1).div(s(3))), SCALE / 3);
    assert!(!s(0).div(s(0)).is_finite());
}

#[test]
fn scalar_saturates_outside_its_finite_range() {
    // The finite range ends near 2^30; squaring a million leaves it.
    assert!(!s(1000000).mul(s(1000000)).is_finite());
    assert!(!Scalar::from_int(i64::MAX).is_finite());
    assert!(s(1000000000).is_finite());
}

#[test]
fn scalar_order_puts_non_finite_on_top() {
    let inf = Scalar::non_finite();
    assert!(s(1).lt(s(2)));
    assert!(!s(2).lt(s(1)));
    assert!(s(5).lt(inf));
    assert!(!inf.lt(s(5)));
    assert!(!inf.lt(inf));
    assert!(inf.le(inf));
    assert!(s(3).le(s(3)));
}

#[test]
fn runge_keeps_constant_solution_flat() {
    let conf = settings(0, 4, 1, 1, 7, Expr::Const(s(0)));
    let points = solve_runge(&conf);
    assert_eq!(points.len(), 5);
    for p in &points {
        assert_eq!(mant(p.y), 7 * SCALE);
    }
}

#[test]
fn eiler_keeps_constant_solution_flat() {
    let conf = settings(0, 4, 1, 1, 7, Expr::Const(s(0)));
    let points = solve_eiler(&conf);
    // The run stops once the next abscissa would reach 4.
    assert_eq!(points.len(), 4);
    for p in &points {
        assert_eq!(mant(p.y), 7 * SCALE);
    }
}

#[test]
fn milna_keeps_constant_solution_flat() {
    let conf = settings(0, 10, 1, 1, 7, Expr::Const(s(0)));
    let points = solve_milna(&conf);
    assert_eq!(points.len(), 13);
    for p in &points {
        assert_eq!(mant(p.y), 7 * SCALE);
    }
}

#[test]
fn runge_solves_unit_slope_exactly() {
    // y' = 1 from y(0) = 7: every sample is y = x + 7, exactly.
    let conf = settings(0, 4, 1, 1, 7, Expr::Const(s(1)));
    let points = solve_runge(&conf);
    assert_eq!(points.len(), 5);
    for (k, p) in points.iter().enumerate() {
        assert_eq!(mant(p.x), k as i128 * SCALE);
        assert_eq!(mant(p.y), (7 + k as i128) * SCALE);
    }
}

#[test]
fn eiler_solves_unit_slope_exactly() {
    let conf = settings(0, 4, 1, 1, 7, Expr::Const(s(1)));
    let points = solve_eiler(&conf);
    assert_eq!(points.len(), 4);
    for (k, p) in points.iter().enumerate() {
        assert_eq!(mant(p.x), k as i128 * SCALE);
        assert_eq!(mant(p.y), (7 + k as i128) * SCALE);
    }
}

#[test]
fn runge_sample_count_rounds_to_nearest() {
    // (end - start) / step = 10 / 3: rounds to 3, so 4 samples.
    let conf = settings(0, 10, 3, 1, 0, Expr::Const(s(0)));
    assert_eq!(solve_runge(&conf).len(), 4);
    // 10 / 4 = 2.5: rounds half away from zero to 3, so 4 samples.
    let conf = settings(0, 10, 4, 1, 0, Expr::Const(s(0)));
    assert_eq!(solve_runge(&conf).len(), 4);
    // An empty interval yields only the initial sample.
    let conf = settings(5, 5, 1, 1, 0, Expr::Const(s(0)));
    assert_eq!(solve_runge(&conf).len(), 1);
}

#[test]
fn eiler_truncates_at_the_iteration_cap() {
    // A step of 2^-32 would need 2^32 steps to cross the unit interval; the
    // run is cut at 1000 steps, 1001 samples.
    let tiny = Scalar::from_mantissa(1);
    let conf = Settings {
        start: s(0),
        end: s(1),
        step: tiny,
        start_condition: s(0),
        function: Expr::Const(s(0)),
    };
    let points = solve_eiler(&conf);
    assert_eq!(points.len(), 1001);
    for w in points.windows(2) {
        assert!(w[0].x.lt(w[1].x));
    }
}

#[test]
fn eiler_abscissae_increase_strictly() {
    let conf = settings(0, 7, 1, 2, 3, Expr::Y);
    let points = solve_eiler(&conf);
    for w in points.windows(2) {
        assert!(w[0].x.lt(w[1].x));
    }
}

#[test]
fn runge_and_eiler_agree_within_step_squared() {
    // y' = x from y(0) = 0: y = x^2 / 2. Both methods integrate polynomials
    // of this degree almost exactly; at shared abscissae they agree within
    // step^2 = 2^-4.
    let conf = settings(0, 2, 1, 4, 0, Expr::X);
    let runge = solve_runge(&conf);
    let eiler = solve_eiler(&conf);
    let shared = eiler.len().min(runge.len());
    assert!(shared >= 8);
    let bound = SCALE / 16;
    for k in 0..shared {
        assert_eq!(mant(runge[k].x), mant(eiler[k].x));
        let diff = (mant(runge[k].y) - mant(eiler[k].y)).abs();
        assert!(diff <= bound, "difference {diff} above bound {bound}");
    }
}

#[test]
fn milna_bootstrap_equals_runge_prefix() {
    let conf = settings(0, 10, 1, 1, 2, Expr::Y);
    let milna = solve_milna(&conf);
    let boot_conf = settings(0, 4, 1, 1, 2, Expr::Y);
    let boot = solve_runge(&boot_conf);
    assert_eq!(boot.len(), 5);
    assert!(milna.len() >= 5);
    for k in 0..5 {
        assert_eq!(milna[k], boot[k]);
    }
    // Post-bootstrap samples continue the grid, one step after the other.
    assert_eq!(mant(milna[5].x), 5 * SCALE);
    assert_eq!(mant(milna[6].x), 6 * SCALE);
}

#[test]
fn milna_follows_the_window_formulas() {
    // y' = x from y(0) = 0 over [0, 30) with step 3; every value below is
    // exact in the fixed-point arithmetic. The bootstrap gives y = x^2 / 2 at
    // x = 0, 3, 6, 9, 12. The first window step reads slopes 3, 6, 9 at the
    // three most recent prior samples: predictor 72 + 4 * 18 = 144, and the
    // single corrector pass gives 18 + (6 + 12 + 15) = 51 at x = 15; the
    // second window step likewise gives 40.5 + (9 + 24 + 18) = 91.5 at x = 18.
    let conf = settings(0, 30, 3, 1, 0, Expr::X);
    let points = solve_milna(&conf);
    assert_eq!(points.len(), 13);
    for (k, p) in points.iter().enumerate() {
        assert_eq!(mant(p.x), 3 * k as i128 * SCALE);
    }
    assert_eq!(mant(points[4].y), 72 * SCALE);
    assert_eq!(mant(points[5].y), 51 * SCALE);
    assert_eq!(mant(points[6].y), 183 * SCALE / 2);
}

#[test]
fn milna_abscissae_increase_strictly() {
    let conf = settings(0, 10, 1, 2, 3, Expr::Y);
    let points = solve_milna(&conf);
    assert!(points.len() > 5);
    for w in points.windows(2) {
        assert!(w[0].x.lt(w[1].x));
    }
}

#[test]
fn milna_counts_post_bootstrap_steps() {
    // floor((10 - 0) / 1) - 2 = 8 Milne steps after the 5 bootstrap samples.
    let conf = settings(0, 10, 1, 1, 7, Expr::Const(s(0)));
    assert_eq!(solve_milna(&conf).len(), 13);
    // An interval shorter than two steps leaves the bootstrap alone.
    let conf = settings(0, 2, 1, 1, 7, Expr::Const(s(0)));
    assert_eq!(solve_milna(&conf).len(), 5);
}

#[test]
fn driver_accepts_first_round_when_tolerance_is_loose() {
    // y' = y is integrated inexactly, but a huge tolerance accepts the very
    // first round, so the driver returns the coarse (unhalved) run.
    let conf = settings(0, 4, 1, 1, 1, Expr::Y);
    let coarse = solve_runge(&conf);
    let got = runge_rule(conf, Method::Runge, s(1000000)).expect("first round accepted");
    assert_eq!(got.len(), coarse.len());
    for k in 0..got.len() {
        assert_eq!(got[k], coarse[k]);
    }
}

#[test]
fn driver_accepts_first_round_for_each_method() {
    // With a huge tolerance every method accepts at once and hands back its
    // own run at the initial (unhalved) step.
    let conf = settings(0, 4, 1, 1, 1, Expr::Y);
    let expected = solve_runge(&conf);
    assert_eq!(runge_rule(conf, Method::Runge, s(1000000)), Ok(expected));

    let conf = settings(0, 4, 1, 1, 1, Expr::Y);
    let expected = solve_eiler(&conf);
    assert_eq!(runge_rule(conf, Method::Eiler, s(1000000)), Ok(expected));

    let conf = settings(0, 4, 1, 1, 1, Expr::Y);
    let expected = solve_milna(&conf);
    assert_eq!(runge_rule(conf, Method::Milna, s(1000000)), Ok(expected));
}

#[test]
fn scalar_division_truncates_toward_zero() {
    assert_eq!(mant(s(-7).div(s(2))), -7 * SCALE / 2);
    assert_eq!(mant(s(-1).div(s(3))), -(SCALE / 3));
    assert_eq!(mant(s(1).div(s(-3))), -(SCALE / 3));
    assert_eq!(mant(s(-5).halved()), -5 * SCALE / 2);
}

#[test]
fn scalar_order_on_negatives() {
    assert!(s(-3).lt(s(-2)));
    assert!(s(-3).lt(s(0)));
    assert!(!s(0).lt(s(-3)));
    assert!(s(-3).le(s(-3)));
}

#[test]
fn driver_reports_discontinuity_on_blowup() {
    // y' = y^2 from y(0) = 1000000: the first step already saturates, which
    // stands for the solution's pole inside the interval.
    let conf = settings(
        0,
        4,
        1,
        1,
        1000000,
        Expr::Mul(Box::new(Expr::Y), Box::new(Expr::Y)),
    );
    let got = runge_rule(conf, Method::Runge, s(1));
    assert_eq!(got, Err(SolveError::Discontinuity));
}

#[test]
fn driver_halves_until_the_tolerance_holds() {
    // y' = -y from y(0) = 1 over [0, 2]: the solution decays, so the coarse
    // run ends above the fine one and the signed estimate stays positive
    // until the grids are fine enough; at least one halving happens and the
    // accepted run has a finer grid than the initial one.
    let minus_y = Expr::Sub(Box::new(Expr::Const(Scalar::from_int(0))), Box::new(Expr::Y));
    let conf = settings(0, 2, 1, 1, 1, minus_y);
    let first = solve_eiler(&conf);
    let tol = Scalar::from_mantissa(SCALE / 1000);
    let got = runge_rule(conf, Method::Eiler, tol).expect("tolerance reachable");
    assert!(got.len() > first.len());
    let last = got.last().expect("runs are never empty");
    // e^-2 is about 0.135; the accepted approximation lands nearby.
    let y = mant(last.y);
    assert!(y > SCALE / 10 && y < SCALE / 5, "final ordinate {y}");
}

#[test]
fn error_messages_name_the_failure() {
    assert!(SolveError::Discontinuity.message().contains("discontinuity"));
    assert!(SolveError::PrecisionUnattainable.message().contains("precision"));
}

#[test]
fn expressions_evaluate_like_their_formula() {
    // f(x, y) = 2 x y / (x x + y y) at (1, 2): 4 / 5.
    let two_xy = Expr::Mul(
        Box::new(Expr::Mul(Box::new(Expr::Const(s(2))), Box::new(Expr::X))),
        Box::new(Expr::Y),
    );
    let xx_yy = Expr::Add(
        Box::new(Expr::Mul(Box::new(Expr::X), Box::new(Expr::X))),
        Box::new(Expr::Mul(Box::new(Expr::Y), Box::new(Expr::Y))),
    );
    let f = Expr::Div(Box::new(two_xy), Box::new(xx_yy));
    let v = f.eval_at(s(1), s(2));
    assert_eq!(mant(v), 4 * SCALE / 5);
}

#[test]
fn first_sample_is_the_start_condition() {
    let conf = settings(-3, 3, 1, 2, -5, Expr::X);
    for points in [
        solve_runge(&conf),
        solve_eiler(&settings(-3, 3, 1, 2, -5, Expr::X)),
        solve_milna(&settings(-3, 3, 1, 2, -5, Expr::X)),
    ] {
        let first: Point = points[0];
        assert_eq!(mant(first.x), -3 * SCALE);
        assert_eq!(mant(first.y), -5 * SCALE);
    }
}
