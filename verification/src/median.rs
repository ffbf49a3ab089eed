//! The median filter.
//!
//! A window of `filter_len` samples starts as replicas of the first
//! sample and slides over the input as a queue: each step pushes the next
//! sample at the back and pops the oldest from the front. Every step
//! orders a copy of the window and reads the element of rank
//! `filter_len / 2` — the middle element for an odd window length, the
//! upper of the two middle elements for an even one. From the half-window
//! position onward each step's median is emitted; the boundary extension
//! then pushes the replicated last sample for another half-window of
//! outputs.

use vstd::prelude::*;

use crate::model::emit_step;
use crate::model::out_len;
use crate::model::padded_at;
use crate::model::window_at;
use crate::sorting;
use crate::sorting::sort_seq;
use crate::FilterError;

verus! {

/// The whole median-filter output: for each output index, the rank
/// `k / 2` element of the sorted window at that emission.
pub open spec fn median_spec(s: Seq<i32>, k: int) -> Seq<i32> {
    Seq::new(
        out_len(s.len() as int, k) as nat,
        |t: int| sort_seq(window_at(s, k, emit_step(s.len() as int, k, t)))[k / 2],
    )
}

/// A constant input comes back unchanged from the median filter: every
/// window holds only the constant, so every median is the constant.
pub proof fn lemma_median_filter_constant_input(s: Seq<i32>, k: int, v: i32)
    requires
        k >= 1,
        k / 2 <= s.len(),
        forall|i: int| 0 <= i < s.len() ==> s[i] == v,
    ensures
        median_spec(s, k) == s,
{
    let n = s.len() as int;
    crate::model::lemma_out_len_matches_input(n, k);
    assert forall|t: int| 0 <= t < n implies median_spec(s, k)[t] == s[t] by {
        let w = window_at(s, k, emit_step(n, k, t));
        assert(forall|m: int| 0 <= m < w.len() ==> w[m] == v);
        sorting::lemma_sort_seq_constant(w, v);
        assert(sort_seq(w)[k / 2] == v);
    }
    assert(median_spec(s, k) =~= s);
}

/// Applies the median filter to `input` with a window of `filter_len`
/// samples.
///
/// The window length must be positive; a zero length is reported as
/// [`FilterError::InvalidWindowLength`] and nothing else ever fails. An
/// empty input yields an empty output; otherwise the output is exactly
/// [`median_spec`], and has the input's length whenever the half-window
/// fits inside the input.
#[verifier::loop_isolation(false)]
pub fn median_filter(input: &[i32], filter_len: usize) -> (r: Result<Vec<i32>, FilterError>)
    ensures
        filter_len == 0 <==> r == Err::<Vec<i32>, FilterError>(FilterError::InvalidWindowLength),
        filter_len >= 1 ==> (r matches Ok(out) && out@ == median_spec(input@, filter_len as int)),
        filter_len >= 1 && input@.len() == 0 ==> (r matches Ok(out) && out@.len() == 0),
        filter_len >= 1 && filter_len / 2 <= input@.len() ==> (r matches Ok(out) && out@.len()
            == input@.len()),
{
    if filter_len == 0 {
        return Err(FilterError::InvalidWindowLength);
    }
    let ghost s = input@;
    let ghost k = filter_len as int;
    let half = filter_len / 2;
    let n = input.len();
    let mut filtered: Vec<i32> = Vec::new();
    if n == 0 {
        proof {
            assert(filtered@ =~= median_spec(s, k));
        }
        return Ok(filtered);
    }
    let first = input[0];

    // Pre-fill: the window starts as filter_len replicas of the first
    // sample.
    let mut window: Vec<i32> = Vec::new();
    let mut j: usize = 0;
    while j < filter_len
        invariant
            j <= filter_len,
            window@.len() == j,
            forall|m: int| 0 <= m < j ==> window@[m] == first,
        decreases filter_len - j,
    {
        window.push(first);
        j += 1;
    }
    assert(window@ =~= window_at(s, k, 0));

    // Main sweep: push each sample, pop the oldest, and emit the window's
    // middle-ranked element once the sweep is a half-window in.
    let mut pos: usize = 0;
    while pos < n
        invariant
            pos <= n,
            window@ == window_at(s, k, pos as int),
            window@.len() == filter_len,
            filtered@.len() == if pos > half {
                pos - half
            } else {
                0
            },
            forall|t: int| 0 <= t < filtered@.len() ==> filtered@[t] == median_spec(s, k)[t],
        decreases n - pos,
    {
        window.push(input[pos]);
        window.remove(0);
        proof {
            assert(window@ =~= window_at(s, k, pos + 1));
        }
        let ordered = sorting::sort_window(&window);
        let med = ordered[half];
        if pos >= half {
            proof {
                assert(emit_step(n as int, k, pos - half) == pos + 1);
            }
            filtered.push(med);
        }
        pos += 1;
    }

    // Boundary extension: keep pushing the replicated last sample for the
    // remaining half-window of outputs.
    let last = input[n - 1];
    let mut i: usize = 0;
    while i < half
        invariant
            i <= half,
            window@ == window_at(s, k, n + i),
            window@.len() == filter_len,
            filtered@.len() == (if n > half {
                n - half
            } else {
                0
            }) + i,
            forall|t: int| 0 <= t < filtered@.len() ==> filtered@[t] == median_spec(s, k)[t],
        decreases half - i,
    {
        window.push(last);
        window.remove(0);
        proof {
            assert(window@ =~= window_at(s, k, n + i + 1));
        }
        let ordered = sorting::sort_window(&window);
        let med = ordered[half];
        proof {
            let t = filtered@.len() as int;
            assert(emit_step(n as int, k, t) == n + i + 1);
        }
        filtered.push(med);
        i += 1;
    }

    proof {
        assert(filtered@ =~= median_spec(s, k));
    }
    Ok(filtered)
}

} // verus!
