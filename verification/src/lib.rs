//! Combinators for non-blocking sequences.
//!
//! A non-blocking sequence is queried one item at a time; each query reports
//! that an item was produced, that the sequence is exhausted, or that nothing
//! is ready yet.  The combinators here transform the timing and content of
//! such sequences: `Expand` repeats the last item while the upstream is not
//! ready, `LatestReady` coalesces a burst of ready items into the most recent
//! one, and `ZipBiased` pairs two sequences while only ever consulting the
//! right one once a left item is already in hand.  Each has a fallible
//! variant that forwards the first error and then terminates.

pub mod expand;
pub mod latest_ready;
pub mod outcome;
pub mod source;
pub mod zip_biased;
