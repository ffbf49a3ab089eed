//! Smoothing filters for one-dimensional integer signals.
//!
//! Two stateless transforms are provided, each mapping a sequence of
//! `i32` samples and a positive window length to a new sequence:
//!
//! * [`moving_average_filter`]: a sliding-window mean with an
//!   incrementally maintained wide sum and truncating integer division;
//! * [`median_filter`]: a sliding-window median, taking the upper-middle
//!   element of the sorted window when the window length is even.
//!
//! Both filters replicate the first sample to pre-fill the window and the
//! last sample to extend it past the end of the input, so positions near
//! the edges still receive a full window. A zero window length is the one
//! rejected input, reported as [`FilterError::InvalidWindowLength`].

use vstd::prelude::*;

mod arith;
mod median;
mod model;
mod moving_average;
mod sorting;

pub use arith::lemma_wrap_i32_identity;
pub use arith::trunc_div;
pub use arith::wrap_i32;
pub use median::lemma_median_filter_constant_input;
pub use median::median_filter;
pub use median::median_spec;
pub use model::emit_step;
pub use model::lemma_out_len_matches_input;
pub use model::out_len;
pub use model::padded_at;
pub use model::window_at;
pub use moving_average::lemma_moving_average_monotone;
pub use moving_average::lemma_moving_average_zero_input;
pub use moving_average::mavg_acc;
pub use moving_average::moving_average_filter;
pub use moving_average::moving_average_spec;
pub use moving_average::prefix_sum;
pub use moving_average::run_acc;
pub use sorting::insert_sorted;
pub use sorting::lemma_sort_seq_constant;
pub use sorting::lemma_sort_seq_props;
pub use sorting::sort_seq;
pub use sorting::sorted;

verus! {

/// The one error either filter can report: the window length was zero.
#[derive(Clone, Copy, Debug, PartialEq, Eq, Structural)]
pub enum FilterError {
    InvalidWindowLength,
}

} // verus!
