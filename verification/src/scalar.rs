//! A saturating binary fixed-point number type.
//!
//! A finite `Scalar` holds the value `m / 2^32` for a mantissa `m` with
//! `|m| <= MAX_MANTISSA`, so finite values lie in about `[-2^30, 2^30]` with a
//! resolution of `2^-32`. Any operation whose exact result would leave that
//! range yields the single absorbing non-finite value, as does division by
//! zero; an equation that blows up on the explored interval therefore shows
//! up as non-finite samples. For comparisons the non-finite value acts as the
//! greatest element, so a run whose abscissa has saturated stops at the next
//! interval-end test.
//!
//! Every executable operation is specified exactly by a `spec` twin, so
//! contracts elsewhere in the crate can pin down each computed value.

use vstd::prelude::*;

verus! {

/// The scaling factor `2^32`: a finite scalar with mantissa `m` has the
/// value `m / SCALE`.
pub const SCALE: i128 = 4294967296;

/// Largest mantissa magnitude of a finite scalar, `2^62`. The bound keeps
/// every intermediate product of two mantissas inside `i128`.
pub const MAX_MANTISSA: i128 = 4611686018427387904;

/// A fixed-point number: either the finite value `m / SCALE`, or the single
/// absorbing non-finite value (`fin == false`, with `m` pinned to zero so
/// that derived equality is value equality).
#[derive(Clone, Copy, Debug, PartialEq, Eq, Structural)]
pub struct Scalar {
    pub m: i128,
    pub fin: bool,
}

/// The non-finite scalar.
pub open spec fn spec_non_finite() -> Scalar {
    Scalar { m: 0, fin: false }
}

/// A finite scalar with mantissa `m`, which must be in range.
pub open spec fn spec_finite(m: int) -> Scalar {
    Scalar { m: m as i128, fin: true }
}

/// Truncating (toward zero) integer division; `d` is expected positive.
pub open spec fn tdiv(n: int, d: int) -> int {
    if n >= 0 {
        n / d
    } else {
        -((-n) / d)
    }
}

/// Truncating integer division for a divisor of either sign.
pub open spec fn tdiv_signed(n: int, d: int) -> int {
    if d >= 0 {
        tdiv(n, d)
    } else {
        -tdiv(n, -d)
    }
}

/// Addition: exact when both operands are finite and the sum stays in
/// range, non-finite otherwise.
pub open spec fn spec_add(a: Scalar, b: Scalar) -> Scalar {
    if a.fin && b.fin && -MAX_MANTISSA <= a.m + b.m <= MAX_MANTISSA {
        spec_finite(a.m + b.m)
    } else {
        spec_non_finite()
    }
}

/// Subtraction, with the same saturation rule as addition.
pub open spec fn spec_sub(a: Scalar, b: Scalar) -> Scalar {
    if a.fin && b.fin && -MAX_MANTISSA <= a.m - b.m <= MAX_MANTISSA {
        spec_finite(a.m - b.m)
    } else {
        spec_non_finite()
    }
}

/// Multiplication: the exact mantissa product scaled back down, truncating
/// toward zero; saturates when the scaled result leaves the finite range.
pub open spec fn spec_mul(a: Scalar, b: Scalar) -> Scalar {
    if a.fin && b.fin && -MAX_MANTISSA <= tdiv(a.m * b.m, SCALE as int) <= MAX_MANTISSA {
        spec_finite(tdiv(a.m * b.m, SCALE as int))
    } else {
        spec_non_finite()
    }
}

/// Division: `(a / b)` as `(a.m * SCALE) / b.m`, truncating toward zero.
/// Division by zero or by a non-finite value is non-finite.
pub open spec fn spec_div(a: Scalar, b: Scalar) -> Scalar {
    if a.fin && b.fin && b.m != 0 && -MAX_MANTISSA <= tdiv_signed(a.m * SCALE as int, b.m as int)
        <= MAX_MANTISSA {
        spec_finite(tdiv_signed(a.m * SCALE as int, b.m as int))
    } else {
        spec_non_finite()
    }
}

/// Division by a positive machine integer, truncating toward zero. Never
/// saturates: the magnitude can only shrink.
pub open spec fn spec_div_int(a: Scalar, d: int) -> Scalar {
    if a.fin {
        spec_finite(tdiv(a.m as int, d))
    } else {
        spec_non_finite()
    }
}

/// Multiplication by a non-negative machine integer, saturating.
pub open spec fn spec_mul_int(a: Scalar, k: int) -> Scalar {
    if a.fin && -MAX_MANTISSA <= a.m * k <= MAX_MANTISSA {
        spec_finite(a.m * k)
    } else {
        spec_non_finite()
    }
}

/// Strict order with the non-finite value as the greatest element.
pub open spec fn spec_lt(a: Scalar, b: Scalar) -> bool {
    if a.fin && b.fin {
        a.m < b.m
    } else {
        a.fin && !b.fin
    }
}

/// Non-strict order: `spec_lt` or equality.
pub open spec fn spec_le(a: Scalar, b: Scalar) -> bool {
    spec_lt(a, b) || a == b
}

impl Scalar {
    /// A scalar is well formed when its mantissa is in the finite range and
    /// the non-finite value carries the canonical zero mantissa.
    pub open spec fn wf(self) -> bool {
        -MAX_MANTISSA <= self.m <= MAX_MANTISSA && (!self.fin ==> self.m == 0)
    }

    /// The non-finite scalar.
    pub fn non_finite() -> (r: Scalar)
        ensures
            r == spec_non_finite(),
            r.wf(),
    {
        Scalar { m: 0, fin: false }
    }

    /// The scalar zero.
    pub fn zero() -> (r: Scalar)
        ensures
            r == spec_finite(0),
            r.wf(),
    {
        Scalar { m: 0, fin: true }
    }

    /// The finite scalar of value `i`, or non-finite when `i` is out of the
    /// finite range.
    pub fn from_int(i: i64) -> (r: Scalar)
        ensures
            r == spec_mul_int(spec_finite(i as int), SCALE as int),
            r.wf(),
    {
        proof {
            // 2^63 bounds both |i| (an i64) and SCALE, so the product fits.
            lemma_mul_bound(i as int, SCALE as int, 9223372036854775808);
        }
        let m: i128 = (i as i128) * SCALE;
        if -MAX_MANTISSA <= m && m <= MAX_MANTISSA {
            Scalar { m, fin: true }
        } else {
            Scalar { m: 0, fin: false }
        }
    }

    /// The scalar of mantissa `m` (value `m / SCALE`), or non-finite when
    /// `m` is out of the finite range. Intended for callers that convert
    /// foreign number formats at the crate boundary.
    pub fn from_mantissa(m: i128) -> (r: Scalar)
        ensures
            r == (if -MAX_MANTISSA <= m <= MAX_MANTISSA {
                spec_finite(m as int)
            } else {
                spec_non_finite()
            }),
            r.wf(),
    {
        if -MAX_MANTISSA <= m && m <= MAX_MANTISSA {
            Scalar { m, fin: true }
        } else {
            Scalar { m: 0, fin: false }
        }
    }

    /// The mantissa of a finite scalar, or `None` for the non-finite value.
    /// Intended for callers that render values at the crate boundary.
    pub fn mantissa(self) -> (r: Option<i128>)
        ensures
            r == (if self.fin {
                Some(self.m)
            } else {
                None::<i128>
            }),
    {
        if self.fin {
            Some(self.m)
        } else {
            None
        }
    }

    /// Whether the scalar is finite.
    pub fn is_finite(self) -> (r: bool)
        ensures
            r == self.fin,
    {
        self.fin
    }

    /// Saturating addition.
    pub fn add(self, rhs: Scalar) -> (r: Scalar)
        requires
            self.wf(),
            rhs.wf(),
        ensures
            r == spec_add(self, rhs),
            r.wf(),
    {
        if self.fin && rhs.fin {
            let s: i128 = self.m + rhs.m;
            if -MAX_MANTISSA <= s && s <= MAX_MANTISSA {
                Scalar { m: s, fin: true }
            } else {
                Scalar { m: 0, fin: false }
            }
        } else {
            Scalar { m: 0, fin: false }
        }
    }

    /// Saturating subtraction.
    pub fn sub(self, rhs: Scalar) -> (r: Scalar)
        requires
            self.wf(),
            rhs.wf(),
        ensures
            r == spec_sub(self, rhs),
            r.wf(),
    {
        if self.fin && rhs.fin {
            let s: i128 = self.m - rhs.m;
            if -MAX_MANTISSA <= s && s <= MAX_MANTISSA {
                Scalar { m: s, fin: true }
            } else {
                Scalar { m: 0, fin: false }
            }
        } else {
            Scalar { m: 0, fin: false }
        }
    }

    /// Saturating multiplication, truncating toward zero.
    pub fn mul(self, rhs: Scalar) -> (r: Scalar)
        requires
            self.wf(),
            rhs.wf(),
        ensures
            r == spec_mul(self, rhs),
            r.wf(),
    {
        if self.fin && rhs.fin {
            let p: i128 = mul_in_range(self.m, rhs.m);
            let q: i128 = tdiv_exec(p, SCALE);
            if -MAX_MANTISSA <= q && q <= MAX_MANTISSA {
                Scalar { m: q, fin: true }
            } else {
                Scalar { m: 0, fin: false }
            }
        } else {
            Scalar { m: 0, fin: false }
        }
    }

    /// Saturating division, truncating toward zero; division by zero or by a
    /// non-finite value yields the non-finite scalar.
    pub fn div(self, rhs: Scalar) -> (r: Scalar)
        requires
            self.wf(),
            rhs.wf(),
        ensures
            r == spec_div(self, rhs),
            r.wf(),
    {
        if self.fin && rhs.fin && rhs.m != 0 {
            let p: i128 = mul_in_range(self.m, SCALE);
            let q: i128 = if rhs.m > 0 {
                tdiv_exec(p, rhs.m)
            } else {
                -tdiv_exec(p, -rhs.m)
            };
            if -MAX_MANTISSA <= q && q <= MAX_MANTISSA {
                Scalar { m: q, fin: true }
            } else {
                Scalar { m: 0, fin: false }
            }
        } else {
            Scalar { m: 0, fin: false }
        }
    }

    /// Division by a positive machine integer, truncating toward zero.
    pub fn div_int(self, d: i128) -> (r: Scalar)
        requires
            self.wf(),
            0 < d,
        ensures
            r == spec_div_int(self, d as int),
            r.wf(),
    {
        if self.fin {
            let q: i128 = tdiv_exec(self.m, d);
            proof {
                lemma_tdiv_shrinks(self.m as int, d as int);
            }
            Scalar { m: q, fin: true }
        } else {
            Scalar { m: 0, fin: false }
        }
    }

    /// Half of the scalar, truncating toward zero.
    pub fn halved(self) -> (r: Scalar)
        requires
            self.wf(),
        ensures
            r == spec_div_int(self, 2),
            r.wf(),
    {
        self.div_int(2)
    }

    /// Saturating multiplication by a small non-negative machine integer.
    pub fn mul_int(self, k: i128) -> (r: Scalar)
        requires
            self.wf(),
            0 <= k <= 16,
        ensures
            r == spec_mul_int(self, k as int),
            r.wf(),
    {
        if self.fin {
            proof {
                lemma_mul_bound(self.m as int, k as int, MAX_MANTISSA as int);
            }
            let p: i128 = self.m * k;
            if -MAX_MANTISSA <= p && p <= MAX_MANTISSA {
                Scalar { m: p, fin: true }
            } else {
                Scalar { m: 0, fin: false }
            }
        } else {
            Scalar { m: 0, fin: false }
        }
    }

    /// Strict order with the non-finite value greatest.
    pub fn lt(self, rhs: Scalar) -> (r: bool)
        ensures
            r == spec_lt(self, rhs),
    {
        if self.fin && rhs.fin {
            self.m < rhs.m
        } else {
            self.fin && !rhs.fin
        }
    }

    /// Non-strict order with the non-finite value greatest.
    pub fn le(self, rhs: Scalar) -> (r: bool)
        requires
            self.wf(),
            rhs.wf(),
        ensures
            r == spec_le(self, rhs),
    {
        if self.fin && rhs.fin {
            self.m <= rhs.m
        } else {
            !rhs.fin
        }
    }
}

/// Exact `i128` product of two mantissas in the finite range; the bound on
/// `MAX_MANTISSA` keeps the product inside `i128`.
fn mul_in_range(a: i128, b: i128) -> (p: i128)
    requires
        -MAX_MANTISSA <= a <= MAX_MANTISSA,
        -MAX_MANTISSA <= b <= MAX_MANTISSA,
    ensures
        p == a * b,
        -(MAX_MANTISSA * MAX_MANTISSA) <= p <= MAX_MANTISSA * MAX_MANTISSA,
{
    proof {
        lemma_mul_bound(a as int, b as int, MAX_MANTISSA as int);
    }
    a * b
}

/// Truncating (toward zero) division on `i128`, computed on magnitudes so
/// that its relation to `tdiv` is direct.
fn tdiv_exec(n: i128, d: i128) -> (q: i128)
    requires
        n > i128::MIN,
        0 < d,
    ensures
        q == tdiv(n as int, d as int),
        0 <= n ==> 0 <= q <= n,
        n < 0 ==> n <= q <= 0,
{
    if n >= 0 {
        let un: u128 = n as u128;
        let ud: u128 = d as u128;
        let uq: u128 = un / ud;
        proof {
            lemma_div_shrinks(un as int, ud as int);
        }
        uq as i128
    } else {
        let un: u128 = (-n) as u128;
        let ud: u128 = d as u128;
        let uq: u128 = un / ud;
        proof {
            lemma_div_shrinks(un as int, ud as int);
        }
        -(uq as i128)
    }
}

/// `|a| <= c` and `|b| <= c` bound the product by `c * c`.
proof fn lemma_mul_bound(a: int, b: int, c: int)
    requires
        0 <= c,
        -c <= a <= c,
        -c <= b <= c,
    ensures
        -(c * c) <= a * b <= c * c,
{
    assert(-(c * c) <= a * b <= c * c) by (nonlinear_arith)
        requires
            0 <= c,
            -c <= a <= c,
            -c <= b <= c,
    ;
}

/// Division of a non-negative integer by a positive one shrinks it.
proof fn lemma_div_shrinks(n: int, d: int)
    requires
        0 <= n,
        0 < d,
    ensures
        0 <= n / d <= n,
{
    assert(0 <= n / d <= n) by (nonlinear_arith)
        requires
            0 <= n,
            0 < d,
    ;
}

/// Truncating division brings the result no farther from zero than the
/// dividend, so it preserves the finite mantissa range.
proof fn lemma_tdiv_shrinks(n: int, d: int)
    requires
        0 < d,
    ensures
        0 <= n ==> 0 <= tdiv(n, d) <= n,
        n < 0 ==> n <= tdiv(n, d) <= 0,
{
    if n >= 0 {
        lemma_div_shrinks(n, d);
    } else {
        lemma_div_shrinks(-n, d);
    }
}

} // verus!
