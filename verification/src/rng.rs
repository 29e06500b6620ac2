//! The single randomness source of the core: a uniform draw from an
//! inclusive integer range, taken from the process-wide generator.

use vstd::prelude::*;

use rand::Rng;

verus! {

/// Relies on rand's `Rng::gen_range` over an inclusive `i64` range: for a
/// non-empty range it returns a uniform sample within the bounds (and
/// panics only on an empty range, which the precondition rules out).
/// Nothing more is assumed of the draw: every caller must be correct for
/// every value between the bounds.
#[verifier::external_body]
pub(crate) fn sample_range(lo: i64, hi: i64) -> (r: i64)
    requires
        lo <= hi,
    ensures
        lo <= r <= hi,
{
    rand::thread_rng().gen_range(lo..=hi)
}

} // verus!
