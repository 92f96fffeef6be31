//! A streaming filter for genomic alignment records.
//!
//! The library decides, record by record, whether an alignment record passes
//! a set of independently optional predicates (minimum mapping quality,
//! strand orientation, bounds on the absolute insert size), and models the
//! one-pass, order-preserving pipeline that forwards the passing records
//! from a source to a sink.

use vstd::prelude::*;

mod filter;
mod pipeline;

pub use filter::AlnRecord;
pub use filter::Opt;
pub use filter::Strand;
pub use filter::abs_val;
pub use filter::lemma_boundary_inclusive;
pub use filter::lemma_insert_size_symmetry;
pub use filter::lemma_strand_exactness;
pub use filter::lemma_strand_irrelevant;
pub use pipeline::SourceEvent;
pub use pipeline::StreamError;
pub use pipeline::clean_prefix;
pub use pipeline::filter_records;
pub use pipeline::filtered;
pub use pipeline::lemma_contradictory_bounds;
pub use pipeline::lemma_filtered_elements;
pub use pipeline::lemma_identity_filter;
pub use pipeline::lemma_quality_monotone;
pub use pipeline::raises_quality_bound;
pub use pipeline::records_of;
pub use pipeline::run;

verus! {

/// Whether the input argument explicitly requests standard input: it is the
/// string "-".
pub open spec fn stdin_requested(input: Option<&String>) -> bool {
    match input {
        Some(i) => i@ == "-"@,
        None => false,
    }
}

/// Decides whether the run should read from standard input: either the
/// input argument requests it with "-", or standard input is already a pipe
/// (as probed by the caller, which owns all environment access).
pub fn is_stdin(input: Option<&String>, stdin_is_pipe: bool) -> (r: bool)
    ensures
        r == (stdin_requested(input) || stdin_is_pipe),
{
    let is_request = match input {
        Some(i) => {
            let dash: String = "-".to_owned();
            proof {
                reveal_strlit("-");
            }
            *i == dash
        },
        None => false,
    };
    is_request || stdin_is_pipe
}

} // verus!
