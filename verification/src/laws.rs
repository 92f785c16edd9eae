//! Laws relating the solvers: facts that hold of whole families of inputs,
//! stated and proved once here rather than checked case by case.

use vstd::prelude::*;

verus! {

use crate::correction::{
    driver_loop, halved_settings, has_non_finite, method_points, round_estimate, runge_rule_spec,
    MAX_TRIES,
};
use crate::equation::Equation;
use crate::multi_step::{milna_count, milna_next, milna_seq, milna_steps};
use crate::scalar::{
    Scalar, spec_add, spec_div_int, spec_le, spec_lt, spec_mul, spec_mul_int, spec_finite,
    spec_non_finite, tdiv, SCALE,
};
use crate::single_step::eiler::{euler_next, euler_seq, euler_steps, MAX_ITERATIONS};
use crate::single_step::runge::{rk_next, runge_seq, runge_steps, with_end};
use crate::{Method, Point, Settings, SolveError};

/// When the tolerance is at least the first round's error estimate and the
/// first coarse run is everywhere finite, the driver accepts on the first
/// round and returns that first run: no halving is adopted.
pub proof fn lemma_first_round_accept<E: Equation>(s: Settings<E>, m: Method, epsilon: Scalar)
    requires
        !has_non_finite(method_points(m, s)),
        spec_le(
            round_estimate(m, method_points(m, s), method_points(m, halved_settings(s))),
            epsilon,
        ),
    ensures
        runge_rule_spec(s, m, epsilon) == Result::<Seq<Point>, SolveError>::Ok(
            method_points(m, s),
        ),
{
}

/// When the selected integrator's first run holds a non-finite ordinate, the
/// driver reports a discontinuity at once.
pub proof fn lemma_discontinuity<E: Equation>(s: Settings<E>, m: Method, epsilon: Scalar)
    requires
        has_non_finite(method_points(m, s)),
    ensures
        runge_rule_spec(s, m, epsilon) == Result::<Seq<Point>, SolveError>::Err(
            SolveError::Discontinuity,
        ),
{
}

/// Multiplying any scalar by zero gives zero (or stays non-finite).
proof fn lemma_mul_zero(a: Scalar)
    ensures
        a.fin ==> spec_mul(a, spec_finite(0)) == spec_finite(0),
        !a.fin ==> spec_mul(a, spec_finite(0)) == spec_non_finite(),
{
    assert(spec_finite(0).m == 0);
    assert(a.m * spec_finite(0).m == 0);
    assert(tdiv(0, SCALE as int) == 0);
}

/// Every ordinate that `runge_steps` appends to a run whose ordinates all
/// equal `v` again equals `v`, when the equation is constantly zero and the
/// step is finite.
proof fn lemma_runge_steps_zero<E: Equation>(f: E, h: Scalar, cur: Point, out: Seq<Point>, k: nat)
    requires
        forall|x: Scalar, y: Scalar| #[trigger] f.eval_spec(x, y) == spec_finite(0),
        h.wf(),
        h.fin,
        cur.y.wf(),
        forall|i: int| 0 <= i < out.len() ==> #[trigger] out[i].y == cur.y,
    ensures
        forall|i: int|
            0 <= i < runge_steps(f, h, cur, out, k).len() ==> #[trigger] runge_steps(
                f,
                h,
                cur,
                out,
                k,
            )[i].y == cur.y,
    decreases k,
{
    if k > 0 {
        let nxt = rk_next(f, cur, h);
        lemma_mul_zero(h);
        assert(nxt.y == cur.y);
        lemma_runge_steps_zero(f, h, nxt, out.push(nxt), (k - 1) as nat);
        let rest = runge_steps(f, h, nxt, out.push(nxt), (k - 1) as nat);
        assert forall|i: int| 0 <= i < runge_steps(f, h, cur, out, k).len() implies #[trigger]
        runge_steps(f, h, cur, out, k)[i].y == cur.y by {
            assert(rest[i].y == nxt.y);
        }
    }
}

/// For the constant equation f(x, y) = 0 every Runge-Kutta sample keeps the
/// starting ordinate.
pub proof fn lemma_runge_constant_zero<E: Equation>(s: Settings<E>)
    requires
        s.wf(),
        s.step.fin,
        forall|x: Scalar, y: Scalar| #[trigger] s.function.eval_spec(x, y) == spec_finite(0),
    ensures
        forall|i: int|
            0 <= i < runge_seq(s).len() ==> #[trigger] runge_seq(s)[i].y == s.start_condition,
{
    lemma_runge_steps_zero(
        s.function,
        s.step,
        s.first_point(),
        seq![s.first_point()],
        crate::single_step::runge::runge_count(s.start, s.end, s.step),
    );
}

/// Every ordinate that `euler_steps` appends to a run whose ordinates all
/// equal `v` again equals `v`, when the equation is constantly zero and the
/// step is finite.
proof fn lemma_euler_steps_zero<E: Equation>(
    f: E,
    end: Scalar,
    h: Scalar,
    cur: Point,
    out: Seq<Point>,
    fuel: nat,
)
    requires
        forall|x: Scalar, y: Scalar| #[trigger] f.eval_spec(x, y) == spec_finite(0),
        h.wf(),
        h.fin,
        cur.y.wf(),
        forall|i: int| 0 <= i < out.len() ==> #[trigger] out[i].y == cur.y,
    ensures
        forall|i: int|
            0 <= i < euler_steps(f, end, h, cur, out, fuel).len() ==> #[trigger] euler_steps(
                f,
                end,
                h,
                cur,
                out,
                fuel,
            )[i].y == cur.y,
    decreases fuel,
{
    if fuel > 0 {
        let nxt = euler_next(f, cur, h);
        lemma_mul_zero(h);
        lemma_mul_zero(spec_div_int(h, 2));
        assert(nxt.y == cur.y);
        if spec_lt(nxt.x, end) {
            lemma_euler_steps_zero(f, end, h, nxt, out.push(nxt), (fuel - 1) as nat);
            let rest = euler_steps(f, end, h, nxt, out.push(nxt), (fuel - 1) as nat);
            assert forall|i: int|
                0 <= i < euler_steps(f, end, h, cur, out, fuel).len() implies #[trigger]
            euler_steps(f, end, h, cur, out, fuel)[i].y == cur.y by {
                assert(rest[i].y == nxt.y);
            }
        }
    }
}

/// For the constant equation f(x, y) = 0 every modified-Euler sample keeps
/// the starting ordinate.
pub proof fn lemma_euler_constant_zero<E: Equation>(s: Settings<E>)
    requires
        s.wf(),
        s.step.fin,
        forall|x: Scalar, y: Scalar| #[trigger] s.function.eval_spec(x, y) == spec_finite(0),
    ensures
        forall|i: int|
            0 <= i < euler_seq(s).len() ==> #[trigger] euler_seq(s)[i].y == s.start_condition,
{
    lemma_euler_steps_zero(
        s.function,
        s.end,
        s.step,
        s.first_point(),
        seq![s.first_point()],
        MAX_ITERATIONS as nat,
    );
}

/// Every ordinate that `milna_steps` appends to a run whose ordinates all
/// equal `v` again equals `v`, when the equation is constantly zero and the
/// step is finite.
proof fn lemma_milna_steps_zero<E: Equation>(f: E, h: Scalar, out: Seq<Point>, k: nat, v: Scalar)
    requires
        forall|x0: Scalar, y0: Scalar| #[trigger] f.eval_spec(x0, y0) == spec_finite(0),
        h.wf(),
        h.fin,
        v.wf(),
        out.len() >= 5,
        forall|i: int| 0 <= i < out.len() ==> #[trigger] out[i].y == v,
    ensures
        forall|i: int|
            0 <= i < milna_steps(f, h, out, k).len() ==> #[trigger] milna_steps(f, h, out, k)[i].y
                == v,
    decreases k,
{
    if k > 0 {
        let np = milna_next(f, h, out);
        lemma_mul_zero(spec_div_int(spec_mul_int(h, 4), 3));
        lemma_mul_zero(spec_div_int(h, 3));
        assert(out.subrange(out.len() - 5, out.len() as int)[2].y == v);
        assert(np.y == v);
        lemma_milna_steps_zero(f, h, out.push(np), (k - 1) as nat, v);
        let rest = milna_steps(f, h, out.push(np), (k - 1) as nat);
        assert forall|i: int| 0 <= i < milna_steps(f, h, out, k).len() implies #[trigger]
        milna_steps(f, h, out, k)[i].y == v by {
            assert(rest[i].y == v);
        }
    }
}

/// For the constant equation f(x, y) = 0 every Milne sample keeps the
/// starting ordinate.
pub proof fn lemma_milna_constant_zero<E: Equation>(s: Settings<E>)
    requires
        s.wf(),
        s.step.fin,
        forall|x: Scalar, y: Scalar| #[trigger] s.function.eval_spec(x, y) == spec_finite(0),
    ensures
        forall|i: int|
            0 <= i < milna_seq(s).len() ==> #[trigger] milna_seq(s)[i].y == s.start_condition,
{
    let boot_end = spec_add(s.start, spec_mul_int(s.step, 4));
    let sb = with_end(s, boot_end);
    assert(sb.wf());
    lemma_runge_constant_zero(sb);
    let boot = runge_seq(sb);
    if boot.len() == 5 {
        lemma_milna_steps_zero(
            s.function,
            s.step,
            boot,
            milna_count(s.start, s.end, s.step),
            s.start_condition,
        );
    }
}

/// `milna_steps` only appends: the samples already produced stay a prefix.
proof fn lemma_milna_steps_prefix<E: Equation>(f: E, h: Scalar, out: Seq<Point>, k: nat)
    ensures
        milna_steps(f, h, out, k).len() >= out.len(),
        milna_steps(f, h, out, k).subrange(0, out.len() as int) == out,
    decreases k,
{
    if k == 0 {
        assert(milna_steps(f, h, out, k).subrange(0, out.len() as int) =~= out);
    } else {
        let np = milna_next(f, h, out);
        lemma_milna_steps_prefix(f, h, out.push(np), (k - 1) as nat);
        let r = milna_steps(f, h, out, k);
        assert forall|i: int| 0 <= i < out.len() implies r[i] == out[i] by {
            assert(r.subrange(0, out.len() as int + 1)[i] == out.push(np)[i]);
        }
        assert(r.subrange(0, out.len() as int) =~= out);
    }
}

/// The first five Milne samples are exactly the five Runge-Kutta samples of
/// the bootstrap run over `[start, start + 4 * step)`; when the bootstrap
/// run does not come to five samples, the Milne output is that run itself.
pub proof fn lemma_milna_bootstrap_prefix<E: Equation>(s: Settings<E>)
    ensures
        ({
            let boot = runge_seq(with_end(s, spec_add(s.start, spec_mul_int(s.step, 4))));
            &&& boot.len() == 5 ==> milna_seq(s).len() >= 5 && milna_seq(s).subrange(0, 5) == boot
            &&& boot.len() != 5 ==> milna_seq(s) == boot
        }),
{
    let boot = runge_seq(with_end(s, spec_add(s.start, spec_mul_int(s.step, 4))));
    if boot.len() == 5 {
        lemma_milna_steps_prefix(s.function, s.step, boot, milna_count(s.start, s.end, s.step));
    }
}

/// The strict scalar order is transitive.
proof fn lemma_lt_trans(a: Scalar, b: Scalar, c: Scalar)
    requires
        spec_lt(a, b),
        spec_lt(b, c),
    ensures
        spec_lt(a, c),
{
}

/// Adjacent strict increase of the abscissae extends to every pair.
proof fn lemma_chain_lt(ps: Seq<Point>, i: int, j: int)
    requires
        forall|t: int| 0 <= t < ps.len() - 1 ==> spec_lt(#[trigger] ps[t].x, ps[t + 1].x),
        0 <= i < j < ps.len(),
    ensures
        spec_lt(ps[i].x, ps[j].x),
    decreases j - i,
{
    if j > i + 1 {
        lemma_chain_lt(ps, i, j - 1);
        lemma_lt_trans(ps[i].x, ps[j - 1].x, ps[j].x);
    }
}

/// Each modified-Euler step pushed onto the run strictly increases the
/// abscissa, as long as the step is positive.
proof fn lemma_euler_steps_increasing<E: Equation>(
    f: E,
    end: Scalar,
    h: Scalar,
    cur: Point,
    out: Seq<Point>,
    fuel: nat,
)
    requires
        h.wf(),
        h.fin,
        h.m > 0,
        out.len() >= 1,
        out.last() == cur,
        forall|t: int| 0 <= t < out.len() - 1 ==> spec_lt(#[trigger] out[t].x, out[t + 1].x),
    ensures
        ({
            let r = euler_steps(f, end, h, cur, out, fuel);
            forall|t: int| 0 <= t < r.len() - 1 ==> spec_lt(#[trigger] r[t].x, r[t + 1].x)
        }),
    decreases fuel,
{
    if fuel > 0 {
        let nxt = euler_next(f, cur, h);
        if spec_lt(nxt.x, end) {
            assert(spec_lt(cur.x, nxt.x));
            let out2 = out.push(nxt);
            assert(forall|t: int|
                0 <= t < out2.len() - 1 ==> spec_lt(#[trigger] out2[t].x, out2[t + 1].x));
            lemma_euler_steps_increasing(f, end, h, nxt, out2, (fuel - 1) as nat);
            let rest = euler_steps(f, end, h, nxt, out2, (fuel - 1) as nat);
            let r = euler_steps(f, end, h, cur, out, fuel);
            assert forall|t: int| 0 <= t < r.len() - 1 implies spec_lt(
                #[trigger] r[t].x,
                r[t + 1].x,
            ) by {
                assert(spec_lt(rest[t].x, rest[t + 1].x));
            }
        }
    }
}

/// For a positive step the modified-Euler output is strictly increasing in
/// its abscissa.
pub proof fn lemma_euler_increasing<E: Equation>(s: Settings<E>)
    requires
        s.step.wf(),
        s.step.fin,
        s.step.m > 0,
    ensures
        forall|i: int, j: int|
            #![trigger euler_seq(s)[i], euler_seq(s)[j]]
            0 <= i < j < euler_seq(s).len() ==> spec_lt(euler_seq(s)[i].x, euler_seq(s)[j].x),
{
    lemma_euler_steps_increasing(
        s.function,
        s.end,
        s.step,
        s.first_point(),
        seq![s.first_point()],
        MAX_ITERATIONS as nat,
    );
    assert forall|i: int, j: int|
        #![trigger euler_seq(s)[i], euler_seq(s)[j]]
        0 <= i < j < euler_seq(s).len() implies spec_lt(euler_seq(s)[i].x, euler_seq(s)[j].x) by {
        lemma_chain_lt(euler_seq(s), i, j);
    }
}

/// Every sample that a modified-Euler run pushes keeps its abscissa below
/// the interval end.
proof fn lemma_euler_steps_below_end<E: Equation>(
    f: E,
    end: Scalar,
    h: Scalar,
    cur: Point,
    out: Seq<Point>,
    fuel: nat,
)
    requires
        forall|t: int| 1 <= t < out.len() ==> spec_lt(#[trigger] out[t].x, end),
    ensures
        ({
            let r = euler_steps(f, end, h, cur, out, fuel);
            forall|t: int| 1 <= t < r.len() ==> spec_lt(#[trigger] r[t].x, end)
        }),
    decreases fuel,
{
    if fuel > 0 {
        let nxt = euler_next(f, cur, h);
        if spec_lt(nxt.x, end) {
            let out2 = out.push(nxt);
            assert(forall|t: int| 1 <= t < out2.len() ==> spec_lt(#[trigger] out2[t].x, end));
            lemma_euler_steps_below_end(f, end, h, nxt, out2, (fuel - 1) as nat);
            let rest = euler_steps(f, end, h, nxt, out2, (fuel - 1) as nat);
            let r = euler_steps(f, end, h, cur, out, fuel);
            assert forall|t: int| 1 <= t < r.len() implies spec_lt(#[trigger] r[t].x, end) by {
                assert(spec_lt(rest[t].x, end));
            }
        }
    }
}

/// Every modified-Euler sample after the initial one lies strictly before
/// the interval end: the run covers `[start, end)`.
pub proof fn lemma_euler_within_interval<E: Equation>(s: Settings<E>)
    ensures
        forall|i: int|
            1 <= i < euler_seq(s).len() ==> spec_lt(#[trigger] euler_seq(s)[i].x, s.end),
{
    lemma_euler_steps_below_end(
        s.function,
        s.end,
        s.step,
        s.first_point(),
        seq![s.first_point()],
        MAX_ITERATIONS as nat,
    );
}

/// Each Runge-Kutta step pushed onto the run stands one step after the
/// previous sample.
proof fn lemma_runge_steps_grid<E: Equation>(f: E, h: Scalar, cur: Point, out: Seq<Point>, k: nat)
    requires
        out.len() >= 1,
        out.last() == cur,
        forall|t: int| 0 <= t < out.len() - 1 ==> #[trigger] out[t + 1].x == spec_add(out[t].x, h),
    ensures
        ({
            let r = runge_steps(f, h, cur, out, k);
            forall|t: int| 0 <= t < r.len() - 1 ==> #[trigger] r[t + 1].x == spec_add(r[t].x, h)
        }),
    decreases k,
{
    if k > 0 {
        let nxt = rk_next(f, cur, h);
        let out2 = out.push(nxt);
        assert(forall|t: int|
            0 <= t < out2.len() - 1 ==> #[trigger] out2[t + 1].x == spec_add(out2[t].x, h));
        lemma_runge_steps_grid(f, h, nxt, out2, (k - 1) as nat);
        let rest = runge_steps(f, h, nxt, out2, (k - 1) as nat);
        let r = runge_steps(f, h, cur, out, k);
        assert forall|t: int| 0 <= t < r.len() - 1 implies #[trigger] r[t + 1].x == spec_add(
            r[t].x,
            h,
        ) by {
            assert(rest[t + 1].x == spec_add(rest[t].x, h));
        }
    }
}

/// Every Runge-Kutta sample stands one step after the previous one: the
/// output covers the uniform grid `start, start + step, ...`.
pub proof fn lemma_runge_grid<E: Equation>(s: Settings<E>)
    ensures
        forall|i: int|
            1 <= i < runge_seq(s).len() ==> #[trigger] runge_seq(s)[i].x == spec_add(
                runge_seq(s)[i - 1].x,
                s.step,
            ),
{
    lemma_runge_steps_grid(
        s.function,
        s.step,
        s.first_point(),
        seq![s.first_point()],
        crate::single_step::runge::runge_count(s.start, s.end, s.step),
    );
    let r = runge_seq(s);
    assert forall|i: int| 1 <= i < r.len() implies #[trigger] r[i].x == spec_add(
        r[i - 1].x,
        s.step,
    ) by {
        assert(r[(i - 1) + 1].x == spec_add(r[i - 1].x, s.step));
    }
}

/// Each Milne step pushed onto the run stands one step after the previous
/// sample.
proof fn lemma_milna_steps_grid<E: Equation>(f: E, h: Scalar, out: Seq<Point>, k: nat)
    requires
        out.len() >= 5,
        forall|t: int| 0 <= t < out.len() - 1 ==> #[trigger] out[t + 1].x == spec_add(out[t].x, h),
    ensures
        ({
            let r = milna_steps(f, h, out, k);
            forall|t: int| 0 <= t < r.len() - 1 ==> #[trigger] r[t + 1].x == spec_add(r[t].x, h)
        }),
    decreases k,
{
    if k > 0 {
        let np = milna_next(f, h, out);
        assert(out.subrange(out.len() - 5, out.len() as int)[4] == out[out.len() - 1]);
        assert(np.x == spec_add(out.last().x, h));
        let out2 = out.push(np);
        assert(forall|t: int|
            0 <= t < out2.len() - 1 ==> #[trigger] out2[t + 1].x == spec_add(out2[t].x, h));
        lemma_milna_steps_grid(f, h, out2, (k - 1) as nat);
        let rest = milna_steps(f, h, out2, (k - 1) as nat);
        let r = milna_steps(f, h, out, k);
        assert forall|t: int| 0 <= t < r.len() - 1 implies #[trigger] r[t + 1].x == spec_add(
            r[t].x,
            h,
        ) by {
            assert(rest[t + 1].x == spec_add(rest[t].x, h));
        }
    }
}

/// Every Milne sample stands one step after the previous one: the abscissa
/// keeps advancing by `step` from the bootstrap into the Milne steps.
pub proof fn lemma_milna_grid<E: Equation>(s: Settings<E>)
    ensures
        forall|i: int|
            1 <= i < milna_seq(s).len() ==> #[trigger] milna_seq(s)[i].x == spec_add(
                milna_seq(s)[i - 1].x,
                s.step,
            ),
{
    let boot_end = spec_add(s.start, spec_mul_int(s.step, 4));
    let sb = with_end(s, boot_end);
    lemma_runge_grid(sb);
    let boot = runge_seq(sb);
    if boot.len() == 5 {
        assert forall|t: int| 0 <= t < boot.len() - 1 implies #[trigger] boot[t + 1].x == spec_add(
            boot[t].x,
            s.step,
        ) by {
            assert(boot[(t + 1) - 1].x == boot[t].x);
        }
        lemma_milna_steps_grid(s.function, s.step, boot, milna_count(s.start, s.end, s.step));
    }
    let r = milna_seq(s);
    assert forall|i: int| 1 <= i < r.len() implies #[trigger] r[i].x == spec_add(
        r[i - 1].x,
        s.step,
    ) by {
        assert(r[(i - 1) + 1].x == spec_add(r[i - 1].x, s.step));
    }
}

/// For a positive step, a Milne run without saturated abscissae is strictly
/// increasing in x.
pub proof fn lemma_milna_increasing<E: Equation>(s: Settings<E>)
    requires
        s.step.wf(),
        s.step.fin,
        s.step.m > 0,
        forall|i: int| 0 <= i < milna_seq(s).len() ==> (#[trigger] milna_seq(s)[i]).x.fin,
    ensures
        forall|i: int, j: int|
            #![trigger milna_seq(s)[i], milna_seq(s)[j]]
            0 <= i < j < milna_seq(s).len() ==> spec_lt(milna_seq(s)[i].x, milna_seq(s)[j].x),
{
    lemma_milna_grid(s);
    let r = milna_seq(s);
    assert forall|t: int| 0 <= t < r.len() - 1 implies spec_lt(#[trigger] r[t].x, r[t + 1].x) by {
        assert(r[t + 1].x == spec_add(r[t].x, s.step));
    }
    assert forall|i: int, j: int|
        #![trigger milna_seq(s)[i], milna_seq(s)[j]]
        0 <= i < j < r.len() implies spec_lt(r[i].x, r[j].x) by {
        lemma_chain_lt(r, i, j);
    }
}

/// The problem definition after `k` rounds of the driver: the step halved
/// `k` times.
pub open spec fn settings_at<E>(s: Settings<E>, k: nat) -> Settings<E>
    decreases k,
{
    if k == 0 {
        s
    } else {
        halved_settings(settings_at(s, (k - 1) as nat))
    }
}

/// The coarse run of round `k` of the driver.
pub open spec fn coarse_at<E: Equation>(s: Settings<E>, m: Method, k: nat) -> Seq<Point> {
    method_points(m, settings_at(s, k))
}

/// The error estimate of round `k` of the driver.
pub open spec fn estimate_at<E: Equation>(s: Settings<E>, m: Method, k: nat) -> Scalar {
    round_estimate(m, coarse_at(s, m, k), coarse_at(s, m, k + 1))
}

/// When every remaining round keeps a finite coarse run whose estimate
/// stays above the tolerance, the driver runs out of rounds.
proof fn lemma_driver_exhausts<E: Equation>(
    s: Settings<E>,
    m: Method,
    epsilon: Scalar,
    j: nat,
    tries: nat,
)
    requires
        forall|k: nat|
            j <= k < j + tries ==> !has_non_finite(#[trigger] coarse_at(s, m, k)) && !spec_le(
                estimate_at(s, m, k),
                epsilon,
            ),
    ensures
        driver_loop(coarse_at(s, m, j), settings_at(s, j), m, epsilon, tries) == Result::<
            Seq<Point>,
            SolveError,
        >::Err(SolveError::PrecisionUnattainable),
    decreases tries,
{
    if tries > 0 {
        assert(!has_non_finite(coarse_at(s, m, j)) && !spec_le(estimate_at(s, m, j), epsilon));
        assert(settings_at(s, j + 1) == halved_settings(settings_at(s, j)));
        lemma_driver_exhausts(s, m, epsilon, j + 1, (tries - 1) as nat);
    }
}

/// When all `MAX_TRIES` rounds keep a finite coarse run whose error
/// estimate stays above the tolerance — with a tolerance of zero, any
/// problem whose consecutive runs keep strictly decreasing final ordinates —
/// the driver returns `PrecisionUnattainable` after exactly `MAX_TRIES`
/// rounds.
pub proof fn lemma_budget_exhausted<E: Equation>(s: Settings<E>, m: Method, epsilon: Scalar)
    requires
        forall|k: nat|
            k < MAX_TRIES ==> !has_non_finite(#[trigger] coarse_at(s, m, k)) && !spec_le(
                estimate_at(s, m, k),
                epsilon,
            ),
    ensures
        runge_rule_spec(s, m, epsilon) == Result::<Seq<Point>, SolveError>::Err(
            SolveError::PrecisionUnattainable,
        ),
{
    lemma_driver_exhausts(s, m, epsilon, 0, MAX_TRIES as nat);
    assert(settings_at(s, 0) == s);
}

} // verus!
