//! Fixed-point scalar arithmetic.
//!
//! A [`Scalar`] counts millionths of a unit: the real value 1.0 is
//! `SCALE = 1_000_000`. All operations truncate toward zero and clamp
//! to the `i64` range, and each is specified exactly over `int`.

use vstd::prelude::*;

verus! {

/// A fixed-point sample: millionths of a unit.
pub type Scalar = i64;

/// The fixed-point scale: `SCALE` represents the real value 1.0.
pub const SCALE: i64 = 1_000_000;

/// Clamp a mathematical integer into the `i64` range.
pub open spec fn clamp_i64(x: int) -> int {
    if x < i64::MIN {
        i64::MIN as int
    } else if x > i64::MAX {
        i64::MAX as int
    } else {
        x
    }
}

/// Integer division truncating toward zero (the divisor is positive).
pub open spec fn div_trunc(n: int, d: int) -> int
    recommends
        d > 0,
{
    if n >= 0 {
        n / d
    } else {
        -((-n) / d)
    }
}

/// The product of two scalars, rescaled: `(a * b) / SCALE`, truncated
/// toward zero and clamped.
pub open spec fn mul_scaled_spec(a: int, b: int) -> int {
    clamp_i64(div_trunc(a * b, SCALE as int))
}

/// The quotient of a scalar by a fixed-point size: `(a * SCALE) / d`,
/// truncated toward zero and clamped; zero when the size is zero.
pub open spec fn div_scaled_spec(a: int, d: int) -> int {
    if d <= 0 {
        0
    } else {
        clamp_i64(div_trunc(a * SCALE, d))
    }
}

/// Sum of a sequence of scalars, as a mathematical integer.
pub open spec fn sum_seq(s: Seq<int>) -> int
    decreases s.len(),
{
    if s.len() == 0 {
        0
    } else {
        sum_seq(s.drop_last()) + s.last()
    }
}

/// The arithmetic mean of a sequence of scalars, truncated toward zero
/// and clamped; zero for an empty sequence.
pub open spec fn average_spec(s: Seq<int>) -> int {
    if s.len() == 0 {
        0
    } else {
        clamp_i64(div_trunc(sum_seq(s), s.len() as int))
    }
}

fn clamp_to_i64(x: i128) -> (r: i64)
    ensures
        r as int == clamp_i64(x as int),
{
    if x < i64::MIN as i128 {
        i64::MIN
    } else if x > i64::MAX as i128 {
        i64::MAX
    } else {
        x as i64
    }
}

/// Multiply two scalars and rescale, truncating toward zero and
/// clamping to the `i64` range.
pub fn mul_scaled(a: Scalar, b: Scalar) -> (r: Scalar)
    ensures
        r as int == mul_scaled_spec(a as int, b as int),
{
    proof {
        assert(a * b <= i128::MAX && i128::MIN <= a * b) by (nonlinear_arith)
            requires
                i64::MIN <= a <= i64::MAX,
                i64::MIN <= b <= i64::MAX,
        ;
    }
    let wide: i128 = (a as i128) * (b as i128);
    let q = wide.checked_div(SCALE as i128);
    proof {
        assert(wide == a * b);
        assert(q matches Some(v) && v == div_trunc(wide as int, SCALE as int)) by {
            div_trunc_in_range(wide as int, SCALE as int);
        }
    }
    clamp_to_i64(q.unwrap())
}

/// Divide a scalar by a positive fixed-point size, first raising it by
/// `SCALE`, truncating toward zero and clamping; a size of zero yields 0.
pub fn div_scaled(a: Scalar, d: u64) -> (r: Scalar)
    ensures
        r as int == div_scaled_spec(a as int, d as int),
{
    if d == 0 {
        return 0;
    }
    proof {
        assert(a * SCALE <= i128::MAX && i128::MIN <= a * SCALE) by (nonlinear_arith)
            requires
                i64::MIN <= a <= i64::MAX,
        ;
    }
    let wide: i128 = (a as i128) * (SCALE as i128);
    let q = wide.checked_div(d as i128);
    proof {
        assert(wide == a * SCALE as int);
        assert(q matches Some(v) && v == div_trunc(wide as int, d as int)) by {
            div_trunc_in_range(wide as int, d as int);
        }
    }
    clamp_to_i64(q.unwrap())
}

/// The arithmetic mean of the scalars, truncated toward zero and clamped;
/// zero for an empty vector.
pub fn average(values: &Vec<Scalar>) -> (r: Scalar)
    ensures
        r as int == average_spec(values@.map_values(|v: Scalar| v as int)),
{
    let ghost model = values@.map_values(|v: Scalar| v as int);
    let n = values.len();
    if n == 0 {
        return 0;
    }
    let mut sum: i128 = 0;
    let mut i: usize = 0;
    proof {
        assert(model.take(0) =~= Seq::<int>::empty());
    }
    while i < n
        invariant
            i <= n,
            n == values@.len(),
            model == values@.map_values(|v: Scalar| v as int),
            model.len() == n,
            sum as int == sum_seq(model.take(i as int)),
            -(i as int) * 0x8000_0000_0000_0000 <= sum as int <= (i as int)
                * 0x8000_0000_0000_0000,
        decreases n - i,
    {
        proof {
            assert(model.take(i + 1).drop_last() =~= model.take(i as int));
            assert(model.take(i + 1).last() == model[i as int]);
            assert(forall|j: int|
                0 <= j < model.len() ==> -0x8000_0000_0000_0000 <= #[trigger] model[j]
                    <= 0x8000_0000_0000_0000);
            assert(-(i + 1) * 0x8000_0000_0000_0000 <= sum + model[i as int] <= (i + 1)
                * 0x8000_0000_0000_0000) by (nonlinear_arith)
                requires
                    -(i as int) * 0x8000_0000_0000_0000 <= sum as int <= (i as int)
                        * 0x8000_0000_0000_0000,
                    -0x8000_0000_0000_0000 <= model[i as int] <= 0x8000_0000_0000_0000,
            ;
            assert((i + 1) * 0x8000_0000_0000_0000 <= 0xffff_ffff_ffff_ffff
                * 0x8000_0000_0000_0000) by (nonlinear_arith)
                requires
                    i + 1 <= 0xffff_ffff_ffff_ffff,
            ;
        }
        sum = sum + (values[i] as i128);
        i = i + 1;
    }
    proof {
        assert(model.take(n as int) =~= model);
        assert((n as int) * 0x8000_0000_0000_0000 <= 0xffff_ffff_ffff_ffff
            * 0x8000_0000_0000_0000) by (nonlinear_arith)
            requires
                n <= 0xffff_ffff_ffff_ffff,
        ;
    }
    let q = sum.checked_div(n as i128);
    proof {
        div_trunc_in_range(sum as int, n as int);
    }
    clamp_to_i64(q.unwrap())
}

/// Where a value moving from `start` toward `target` at `speed` units
/// per second stands after `dt_ms` milliseconds: it never overshoots the
/// target, and a speed of zero or less snaps straight to the target.
pub open spec fn move_toward_spec(start: int, target: int, speed: int, dt_ms: int) -> int {
    if speed <= 0 {
        target
    } else {
        let step = div_trunc(speed * dt_ms, 1000);
        if start < target {
            if start + step < target {
                start + step
            } else {
                target
            }
        } else {
            if start - step > target {
                start - step
            } else {
                target
            }
        }
    }
}

/// Move `start` toward `target` at `speed` units per second for `dt_ms`
/// milliseconds, without overshooting; a speed of zero or less snaps
/// straight to the target.
pub fn move_toward(start: Scalar, target: Scalar, speed: Scalar, dt_ms: u64) -> (r: Scalar)
    ensures
        r as int == move_toward_spec(start as int, target as int, speed as int, dt_ms as int),
{
    if speed <= 0 {
        return target;
    }
    proof {
        assert(speed * dt_ms <= i128::MAX && i128::MIN <= speed * dt_ms) by (nonlinear_arith)
            requires
                0 < speed <= i64::MAX,
                0 <= dt_ms <= u64::MAX,
        ;
    }
    let wide: i128 = (speed as i128) * (dt_ms as i128);
    let q = wide.checked_div(1000);
    proof {
        div_trunc_in_range(wide as int, 1000);
        assert(div_trunc(wide as int, 1000) >= 0);
    }
    let step: i128 = q.unwrap();
    if start < target {
        let moved: i128 = (start as i128) + step;
        if moved < target as i128 {
            moved as i64
        } else {
            target
        }
    } else {
        let moved: i128 = (start as i128) - step;
        if moved > target as i128 {
            moved as i64
        } else {
            target
        }
    }
}

/// Truncating division agrees with `div_trunc` and never leaves the
/// `i128` range when the dividend is in range and the divisor is positive.
proof fn div_trunc_in_range(n: int, d: int)
    requires
        i128::MIN <= n <= i128::MAX,
        0 < d <= i128::MAX,
    ensures
        i128::MIN <= div_trunc(n, d) <= i128::MAX,
        ({
            let x = n;
            if x == 0 {
                0int
            } else if x > 0 {
                x / d
            } else {
                ((x * -1) / d) * -1
            }
        }) == div_trunc(n, d),
{
    if n >= 0 {
        vstd::arithmetic::div_mod::lemma_div_nonincreasing(n, d);
        vstd::arithmetic::div_mod::lemma_div_is_ordered_by_denominator(n, 1, d);
        assert(n / 1 == n) by {
            vstd::arithmetic::div_mod::lemma_div_basics(n);
        }
    } else {
        assert((-n) / d >= 0) by {
            vstd::arithmetic::div_mod::lemma_div_pos_is_pos(-n, d);
        }
        vstd::arithmetic::div_mod::lemma_div_nonincreasing(-n, d);
        vstd::arithmetic::div_mod::lemma_div_is_ordered_by_denominator(-n, 1, d);
        assert((-n) / 1 == -n) by {
            vstd::arithmetic::div_mod::lemma_div_basics(-n);
        }
        assert(n * -1 == -n);
    }
}

} // verus!
