//! The shared windowing model of the two filters.
//!
//! Both filters walk the same logical stream: the input pre-padded with
//! `k` copies of its first sample and extended past its end with copies of
//! its last sample. The spec functions here describe that stream, the
//! window it induces, and how output positions line up with it.

use vstd::prelude::*;

verus! {

/// Number of output samples either filter produces for an input of length
/// `n >= 0` and a window of length `k >= 1`. The main sweep emits one
/// value per input position from `k / 2` onward and the boundary
/// extension emits `k / 2` more, so for a non-empty input this equals `n`
/// exactly when `k / 2 <= n`.
pub open spec fn out_len(n: int, k: int) -> int {
    if n == 0 {
        0
    } else {
        (if n > k / 2 {
            n - k / 2
        } else {
            0
        }) + k / 2
    }
}

/// The padded stream at position `i`: `k` replicas of the first sample,
/// then the input itself, then replicas of the last sample.
pub open spec fn padded_at(s: Seq<i32>, k: int, i: int) -> i32 {
    if i < k {
        s[0]
    } else if i < k + s.len() {
        s[i - k]
    } else {
        s[s.len() - 1]
    }
}

/// The window contents once `q` samples of the padded stream have been
/// pushed past the initial fill: positions `q .. q + k` of that stream.
pub open spec fn window_at(s: Seq<i32>, k: int, q: int) -> Seq<i32> {
    Seq::new(k as nat, |m: int| padded_at(s, k, q + m))
}

/// How many pushes past the initial fill have happened when output index
/// `t` is emitted. The main sweep emits index `t` right after push
/// `t + k / 2 + 1`; every output past the main sweep comes from one more
/// push of the replicated last sample.
pub open spec fn emit_step(n: int, k: int, t: int) -> int {
    let half = k / 2;
    let mc = if n > half {
        n - half
    } else {
        0
    };
    if t < mc {
        t + half + 1
    } else {
        n + (t - mc) + 1
    }
}

/// Both filters return exactly as many samples as they are given whenever
/// the input is empty or the half-window fits inside it.
pub proof fn lemma_out_len_matches_input(n: int, k: int)
    requires
        k >= 1,
        n == 0 || k / 2 <= n,
    ensures
        out_len(n, k) == n,
{
}

} // verus!
