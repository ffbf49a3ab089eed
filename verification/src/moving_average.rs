//! The moving-average (boxcar) filter.
//!
//! A wide accumulator starts as the window length times the first sample,
//! gains each sample as the sweep passes it, and loses the sample that
//! left the window once the sweep is at least a full window into the
//! input. From the half-window position onward every step emits the
//! accumulator divided (truncating) by the window length, narrowed to
//! `i32`; the boundary extension then feeds the replicated last sample in
//! for another half-window of outputs.

use vstd::arithmetic::div_mod::lemma_div_is_ordered;
use vstd::arithmetic::div_mod::lemma_div_multiples_vanish;
use vstd::arithmetic::div_mod::lemma_div_pos_is_pos;
use vstd::arithmetic::mul::lemma_mul_inequality;
use vstd::arithmetic::mul::lemma_mul_is_commutative;
use vstd::arithmetic::mul::lemma_mul_is_distributive_add;
use vstd::arithmetic::mul::lemma_mul_nonnegative;
use vstd::prelude::*;

use crate::arith;
use crate::arith::trunc_div;
use crate::arith::wrap_i32;
use crate::model::out_len;
use crate::FilterError;

verus! {

/// Sum of the first `n` samples of `s`, as a mathematical integer; zero
/// when `n <= 0`.
pub open spec fn prefix_sum(s: Seq<i32>, n: int) -> int
    decreases n,
{
    if n <= 0 {
        0
    } else {
        prefix_sum(s, n - 1) + s[n - 1]
    }
}

/// The accumulator right after the main sweep has consumed the first `p`
/// samples: the initial fill of `k` first-sample replicas, plus every
/// sample consumed so far, minus every sample that has left the window.
pub open spec fn run_acc(s: Seq<i32>, k: int, p: int) -> int {
    k * (s[0] as int) + prefix_sum(s, p) - prefix_sum(s, p - k)
}

/// The accumulator at the moment output index `t` is emitted. During the
/// main sweep that is right after consuming sample `t + k / 2`; past it,
/// the boundary extension has added one replica of the last sample per
/// extra output.
pub open spec fn mavg_acc(s: Seq<i32>, k: int, t: int) -> int {
    let n = s.len() as int;
    let half = k / 2;
    let mc = if n > half {
        n - half
    } else {
        0
    };
    if t < mc {
        run_acc(s, k, t + half + 1)
    } else {
        run_acc(s, k, n) + (t - mc + 1) * (s[n - 1] as int)
    }
}

/// The whole moving-average output: each emitted accumulator divided
/// (truncating) by the window length and narrowed to `i32`.
pub open spec fn moving_average_spec(s: Seq<i32>, k: int) -> Seq<i32> {
    Seq::new(out_len(s.len() as int, k) as nat, |t: int| wrap_i32(trunc_div(mavg_acc(s, k, t), k)))
}

/// The prefix sums of an `i32` sequence grow at most one sample magnitude
/// per element.
proof fn lemma_prefix_sum_bound(s: Seq<i32>, m: int)
    requires
        0 <= m <= s.len(),
    ensures
        -m * 0x8000_0000 <= prefix_sum(s, m) <= m * 0x8000_0000,
    decreases m,
{
    if m > 0 {
        lemma_prefix_sum_bound(s, m - 1);
    }
}

/// The running accumulator of an input of fewer than 2^64 samples stays
/// below 3 * 2^95 in magnitude, far inside `i128`.
proof fn lemma_run_acc_bound(s: Seq<i32>, k: int, p: int)
    requires
        1 <= k <= 0x1_0000_0000_0000_0000,
        s.len() >= 1,
        s.len() <= 0x1_0000_0000_0000_0000,
        0 <= p <= s.len(),
    ensures
        -0x1_8000_0000_0000_0000_0000_0000 <= run_acc(s, k, p) <= 0x1_8000_0000_0000_0000_0000_0000,
{
    arith::lemma_count_times_sample_bound(k, s[0] as int);
    lemma_prefix_sum_bound(s, p);
    arith::lemma_count_times_sample_bound(p, 0x8000_0000);
    if p - k >= 0 {
        lemma_prefix_sum_bound(s, p - k);
        arith::lemma_count_times_sample_bound(p - k, 0x8000_0000);
    } else {
        assert(prefix_sum(s, p - k) == 0);
    }
}

/// Prefix sums of an all-zero input vanish.
proof fn lemma_prefix_sum_zero(s: Seq<i32>, m: int)
    requires
        m <= s.len(),
        forall|i: int| 0 <= i < s.len() ==> s[i] == 0,
    ensures
        prefix_sum(s, m) == 0,
    decreases m,
{
    if m > 0 {
        lemma_prefix_sum_zero(s, m - 1);
    }
}

/// Sums of consecutive samples that all lie in `[0, c]` grow by between
/// zero and `c` per sample.
proof fn lemma_prefix_sum_range(s: Seq<i32>, a: int, b: int, c: int)
    requires
        0 <= a <= b <= s.len(),
        forall|i: int| 0 <= i < s.len() ==> 0 <= #[trigger] s[i] <= c,
    ensures
        0 <= prefix_sum(s, b) - prefix_sum(s, a) <= (b - a) * c,
    decreases b,
{
    if b > a {
        lemma_prefix_sum_range(s, a, b - 1, c);
        lemma_mul_is_distributive_add(c, b - 1 - a, 1);
        lemma_mul_is_commutative(c, b - 1 - a);
        lemma_mul_is_commutative(c, b - a);
    }
}

/// An all-zero input comes back unchanged from the moving average: every
/// accumulator is zero, and zero divided by the window length is zero.
pub proof fn lemma_moving_average_zero_input(s: Seq<i32>, k: int)
    requires
        k >= 1,
        s.len() == 0 || k / 2 <= s.len(),
        forall|i: int| 0 <= i < s.len() ==> s[i] == 0,
    ensures
        moving_average_spec(s, k) == s,
{
    let n = s.len() as int;
    crate::model::lemma_out_len_matches_input(n, k);
    assert forall|t: int| 0 <= t < n implies moving_average_spec(s, k)[t] == s[t] by {
        let half = k / 2;
        let mc = if n > half {
            n - half
        } else {
            0
        };
        if t < mc {
            lemma_prefix_sum_zero(s, t + half + 1);
            lemma_prefix_sum_zero(s, t + half + 1 - k);
        } else {
            lemma_prefix_sum_zero(s, n);
            lemma_prefix_sum_zero(s, n - k);
        }
        assert(mavg_acc(s, k, t) == 0);
        vstd::arithmetic::div_mod::lemma_div_of0(k);
        arith::lemma_wrap_i32_identity(0);
    }
    assert(moving_average_spec(s, k) =~= s);
}

/// Every accumulator of a nonnegative input bounded by `0x2000_0000` is
/// nonnegative and at most three bounds per window slot.
proof fn lemma_mavg_acc_nonneg_bounded(s: Seq<i32>, k: int, t: int)
    requires
        k >= 1,
        k / 2 <= s.len(),
        0 <= t < s.len(),
        forall|i: int| 0 <= i < s.len() ==> 0 <= #[trigger] s[i] <= 0x2000_0000,
    ensures
        0 <= mavg_acc(s, k, t) <= 0x6000_0000 * k,
{
    let n = s.len() as int;
    let half = k / 2;
    let mc = if n > half {
        n - half
    } else {
        0
    };
    lemma_mul_nonnegative(k, s[0] as int);
    lemma_mul_inequality(s[0] as int, 0x2000_0000, k);
    lemma_mul_is_commutative(k, s[0] as int);
    if t < mc {
        let p = t + half + 1;
        if p - k >= 0 {
            lemma_prefix_sum_range(s, p - k, p, 0x2000_0000);
        } else {
            lemma_prefix_sum_range(s, 0, p, 0x2000_0000);
            assert(prefix_sum(s, p - k) == 0);
        }
    } else {
        if n - k >= 0 {
            lemma_prefix_sum_range(s, n - k, n, 0x2000_0000);
        } else {
            lemma_prefix_sum_range(s, 0, n, 0x2000_0000);
            assert(prefix_sum(s, n - k) == 0);
        }
        let cnt = t - mc + 1;
        lemma_mul_nonnegative(cnt, s[n - 1] as int);
        lemma_mul_inequality(s[n - 1] as int, 0x2000_0000, cnt);
        lemma_mul_is_commutative(cnt, s[n - 1] as int);
    }
}

/// For a nondecreasing nonnegative input, consecutive accumulators are
/// themselves nondecreasing: each step gains at least what it loses.
proof fn lemma_mavg_acc_step(s: Seq<i32>, k: int, t: int)
    requires
        k >= 1,
        k / 2 <= s.len(),
        0 <= t < s.len() - 1,
        forall|i: int| 0 <= i < s.len() ==> 0 <= #[trigger] s[i] <= 0x2000_0000,
        forall|i: int, j: int| 0 <= i <= j < s.len() ==> s[i] <= s[j],
    ensures
        mavg_acc(s, k, t) <= mavg_acc(s, k, t + 1),
{
    let n = s.len() as int;
    let half = k / 2;
    let mc = if n > half {
        n - half
    } else {
        0
    };
    if t + 1 < mc {
        let p = t + half + 1;
        assert(prefix_sum(s, p + 1) == prefix_sum(s, p) + s[p]);
        if p + 1 - k >= 1 {
            assert(prefix_sum(s, p + 1 - k) == prefix_sum(s, p - k) + s[p - k]);
            assert(s[p - k] <= s[p]);
        } else {
            assert(prefix_sum(s, p + 1 - k) == 0);
            assert(prefix_sum(s, p - k) == 0);
            assert(s[p] >= 0);
        }
    } else if t + 1 == mc {
        assert(mavg_acc(s, k, t) == run_acc(s, k, n));
        assert((t + 1 - mc + 1) * (s[n - 1] as int) == 1 * (s[n - 1] as int));
        assert(s[n - 1] >= 0);
    } else {
        lemma_mul_is_distributive_add(s[n - 1] as int, t - mc + 1, 1);
        lemma_mul_is_commutative(s[n - 1] as int, t - mc + 1);
        lemma_mul_is_commutative(s[n - 1] as int, t + 1 - mc + 1);
        assert(s[n - 1] >= 0);
    }
}

/// A nondecreasing input of samples in `[0, 0x2000_0000]` stays
/// nondecreasing under the moving average, across the whole output: the
/// accumulators are nondecreasing, truncating division keeps order on
/// nonnegative values, and every emitted value is small enough for the
/// narrowing cast to leave it alone.
pub proof fn lemma_moving_average_monotone(s: Seq<i32>, k: int)
    requires
        k >= 1,
        k / 2 <= s.len(),
        forall|i: int| 0 <= i < s.len() ==> 0 <= #[trigger] s[i] <= 0x2000_0000,
        forall|i: int, j: int| 0 <= i <= j < s.len() ==> s[i] <= s[j],
    ensures
        forall|t: int|
            0 <= t < s.len() - 1 ==> #[trigger] moving_average_spec(s, k)[t]
                <= moving_average_spec(s, k)[t + 1],
{
    let n = s.len() as int;
    crate::model::lemma_out_len_matches_input(n, k);
    assert forall|t: int|
        0 <= t < n - 1 implies #[trigger] moving_average_spec(s, k)[t]
            <= moving_average_spec(s, k)[t + 1] by {
        lemma_mavg_acc_nonneg_bounded(s, k, t);
        lemma_mavg_acc_nonneg_bounded(s, k, t + 1);
        lemma_mavg_acc_step(s, k, t);
        let a1 = mavg_acc(s, k, t);
        let a2 = mavg_acc(s, k, t + 1);
        lemma_div_is_ordered(a1, a2, k);
        lemma_div_is_ordered(a2, 0x6000_0000 * k, k);
        lemma_div_pos_is_pos(a1, k);
        lemma_div_multiples_vanish(0x6000_0000, k);
        lemma_mul_is_commutative(0x6000_0000, k);
        arith::lemma_wrap_i32_identity(a1 / k);
        arith::lemma_wrap_i32_identity(a2 / k);
    }
}

/// Applies the moving-average filter to `input` with a window of
/// `filter_len` samples.
///
/// The window length must be positive; a zero length is reported as
/// [`FilterError::InvalidWindowLength`] and nothing else ever fails. An
/// empty input yields an empty output; otherwise the output is exactly
/// [`moving_average_spec`], and has the input's length whenever the
/// half-window fits inside the input.
#[verifier::loop_isolation(false)]
pub fn moving_average_filter(input: &[i32], filter_len: usize) -> (r: Result<
    Vec<i32>,
    FilterError,
>)
    ensures
        filter_len == 0 <==> r == Err::<Vec<i32>, FilterError>(FilterError::InvalidWindowLength),
        filter_len >= 1 ==> (r matches Ok(out) && out@ == moving_average_spec(
            input@,
            filter_len as int,
        )),
        filter_len >= 1 && input@.len() == 0 ==> (r matches Ok(out) && out@.len() == 0),
        filter_len >= 1 && filter_len / 2 <= input@.len() ==> (r matches Ok(out) && out@.len()
            == input@.len()),
{
    if filter_len == 0 {
        return Err(FilterError::InvalidWindowLength);
    }
    let ghost s = input@;
    let ghost k = filter_len as int;
    let half = filter_len / 2;
    let n = input.len();
    let mut filtered: Vec<i32> = Vec::new();
    if n == 0 {
        proof {
            assert(filtered@ =~= moving_average_spec(s, k));
        }
        return Ok(filtered);
    }
    let first = input[0];

    // Pre-fill: the accumulator starts as filter_len replicas of the
    // first sample.
    let mut acc: i128 = 0;
    let mut j: usize = 0;
    while j < filter_len
        invariant
            j <= filter_len,
            acc == (first as int) * j,
        decreases filter_len - j,
    {
        proof {
            lemma_mul_is_commutative(first as int, j as int);
            arith::lemma_count_times_sample_bound(j as int, first as int);
            lemma_mul_is_distributive_add(first as int, j as int, 1);
        }
        acc = acc + (first as i128);
        j += 1;
    }
    proof {
        lemma_mul_is_commutative(first as int, k);
        assert(prefix_sum(s, 0) == 0);
        assert(prefix_sum(s, 0 - k) == 0);
        assert(acc == run_acc(s, k, 0));
    }

    // Main sweep: consume each sample, retire the one leaving the window,
    // and emit once the sweep is a half-window into the input.
    let mut pos: usize = 0;
    while pos < n
        invariant
            pos <= n,
            acc == run_acc(s, k, pos as int),
            filtered@.len() == if pos > half {
                pos - half
            } else {
                0
            },
            forall|t: int|
                0 <= t < filtered@.len() ==> filtered@[t] == moving_average_spec(s, k)[t],
        decreases n - pos,
    {
        proof {
            lemma_run_acc_bound(s, k, pos as int);
            lemma_run_acc_bound(s, k, pos + 1);
            assert(prefix_sum(s, pos + 1) == prefix_sum(s, pos as int) + s[pos as int]);
            if pos >= filter_len {
                assert(prefix_sum(s, pos + 1 - k) == prefix_sum(s, pos - k) + s[pos - k]);
            } else {
                assert(prefix_sum(s, pos + 1 - k) == 0);
                assert(prefix_sum(s, pos - k) == 0);
            }
        }
        if pos >= filter_len {
            acc = acc - (input[pos - filter_len] as i128);
        }
        acc = acc + (input[pos] as i128);
        if pos >= half {
            let avg = arith::div_trunc(acc, filter_len);
            let emitted = arith::wrap_to_i32(avg);
            proof {
                assert(mavg_acc(s, k, pos - half) == acc);
            }
            filtered.push(emitted);
        }
        pos += 1;
    }

    // Boundary extension: feed the replicated last sample in for the
    // remaining half-window of outputs.
    let last = input[n - 1];
    let mut i: usize = 0;
    while i < half
        invariant
            i <= half,
            acc == run_acc(s, k, n as int) + (last as int) * i,
            filtered@.len() == (if n > half {
                n - half
            } else {
                0
            }) + i,
            forall|t: int|
                0 <= t < filtered@.len() ==> filtered@[t] == moving_average_spec(s, k)[t],
        decreases half - i,
    {
        proof {
            lemma_run_acc_bound(s, k, n as int);
            lemma_mul_is_commutative(last as int, i as int);
            lemma_mul_is_commutative(last as int, i + 1);
            arith::lemma_count_times_sample_bound(i as int, last as int);
            arith::lemma_count_times_sample_bound(i + 1, last as int);
            lemma_mul_is_distributive_add(last as int, i as int, 1);
        }
        acc = acc + (last as i128);
        if filter_len <= i + 1 {
            // Retirement of a sample leaving the window during the
            // extension. The guard compares the window length against the
            // step count, and a half-window is strictly shorter than the
            // window, so it never passes: the extension only accumulates.
            proof {
                vstd::arithmetic::div_mod::lemma_div_is_strictly_smaller(
                    filter_len as int,
                    2,
                );
                assert(false);
            }
            acc = acc - (input[n - filter_len + i + 1] as i128);
        }
        let avg = arith::div_trunc(acc, filter_len);
        let emitted = arith::wrap_to_i32(avg);
        proof {
            let t = filtered@.len() as int;
            assert(mavg_acc(s, k, t) == acc);
        }
        filtered.push(emitted);
        i += 1;
    }

    proof {
        assert(filtered@ =~= moving_average_spec(s, k));
    }
    Ok(filtered)
}

} // verus!
