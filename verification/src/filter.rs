//! The filter predicate set: the configuration record and the pure decision
//! whether one alignment record passes all active predicates.

use vstd::prelude::*;

verus! {

/// Orientation of a mapped fragment relative to the reference.
#[derive(Clone, Copy, Debug, PartialEq, Eq, Structural)]
pub enum Strand {
    Forward,
    Reverse,
}

/// The fields of an alignment record that the filter reads. Records are
/// immutable from the filter's point of view: it only reads them and decides.
#[derive(Clone, Copy, Debug, PartialEq, Eq, Structural)]
pub struct AlnRecord {
    /// Confidence score that the alignment position is correct.
    pub mapping_quality: u8,
    /// Orientation derived from the record's reverse flag.
    pub strand: Strand,
    /// Signed distance between paired fragment ends; the magnitude is the
    /// quantity of interest for size filtering.
    pub insert_size: i64,
}

/// The run configuration: source and sink selection, a concurrency hint for
/// the codec, and the four independently optional predicates. An absent
/// predicate field imposes no constraint; no invariant couples the fields to
/// each other (in particular the insert-size bounds are not validated
/// against each other: a contradictory pair simply rejects every record).
#[derive(Clone, Debug)]
pub struct Opt {
    pub input: Option<String>,
    pub threads: usize,
    pub output: Option<String>,
    pub filter_strand: Option<Strand>,
    pub min_mapping_quality: Option<u8>,
    pub min_insertsize: Option<i64>,
    pub max_insertsize: Option<i64>,
}

/// The magnitude of an integer.
pub open spec fn abs_val(x: int) -> int {
    if x < 0 {
        -x
    } else {
        x
    }
}

impl Opt {
    /// The mapping-quality predicate: an inclusive lower bound, so the bound
    /// itself passes.
    pub open spec fn quality_ok(self, r: AlnRecord) -> bool {
        match self.min_mapping_quality {
            Some(q) => r.mapping_quality >= q,
            None => true,
        }
    }

    /// The strand predicate: the record's strand must equal the required one.
    pub open spec fn strand_ok(self, r: AlnRecord) -> bool {
        match self.filter_strand {
            Some(s) => r.strand == s,
            None => true,
        }
    }

    /// The minimum-insert-size predicate: an inclusive lower bound on the
    /// magnitude of the insert size.
    pub open spec fn min_size_ok(self, r: AlnRecord) -> bool {
        match self.min_insertsize {
            Some(m) => abs_val(r.insert_size as int) >= m,
            None => true,
        }
    }

    /// The maximum-insert-size predicate: an inclusive upper bound on the
    /// magnitude of the insert size.
    pub open spec fn max_size_ok(self, r: AlnRecord) -> bool {
        match self.max_insertsize {
            Some(m) => abs_val(r.insert_size as int) <= m,
            None => true,
        }
    }

    /// A record passes when it fails no active predicate. With all predicate
    /// fields absent this is vacuously true: the identity filter.
    pub open spec fn passes(self, r: AlnRecord) -> bool {
        &&& self.quality_ok(r)
        &&& self.strand_ok(r)
        &&& self.min_size_ok(r)
        &&& self.max_size_ok(r)
    }

    /// Whether no predicate field is set, so that every record passes.
    pub open spec fn is_identity(self) -> bool {
        &&& self.min_mapping_quality is None
        &&& self.filter_strand is None
        &&& self.min_insertsize is None
        &&& self.max_insertsize is None
    }

    /// Decides whether one record passes all active predicates: a pure
    /// function of the record and the configuration. The predicates are
    /// AND-combined and evaluated in a fixed order (quality, strand, minimum
    /// size, maximum size), the first failing one rejecting; the order does
    /// not affect the outcome.
    pub fn decide(&self, r: &AlnRecord) -> (pass: bool)
        ensures
            pass == self.passes(*r),
    {
        match self.min_mapping_quality {
            Some(q) => {
                if r.mapping_quality < q {
                    return false;
                }
            },
            None => {},
        }
        match self.filter_strand {
            Some(s) => {
                if r.strand != s {
                    return false;
                }
            },
            None => {},
        }
        // The magnitude is taken in a wider type: the magnitude of the most
        // negative 64-bit value does not fit an i64.
        let magnitude: i128 = if r.insert_size >= 0 {
            r.insert_size as i128
        } else {
            -(r.insert_size as i128)
        };
        match self.min_insertsize {
            Some(m) => {
                if magnitude < m as i128 {
                    return false;
                }
            },
            None => {},
        }
        match self.max_insertsize {
            Some(m) => {
                if magnitude > m as i128 {
                    return false;
                }
            },
            None => {},
        }
        true
    }
}

/// A record whose insert size is the negation of another's receives the same
/// decision under any configuration, all other fields equal: only the
/// magnitude of the insert size is compared.
pub proof fn lemma_insert_size_symmetry(opt: Opt, r1: AlnRecord, r2: AlnRecord)
    requires
        r2.mapping_quality == r1.mapping_quality,
        r2.strand == r1.strand,
        r2.insert_size == -(r1.insert_size as int),
    ensures
        opt.passes(r1) == opt.passes(r2),
{
}

/// With a required strand set, a record of the other strand is rejected.
pub proof fn lemma_strand_exactness(opt: Opt, r: AlnRecord)
    requires
        opt.filter_strand is Some,
        r.strand != opt.filter_strand->0,
    ensures
        !opt.passes(r),
{
}

/// With no required strand, the strand has no effect on the decision: two
/// records that differ only in strand receive the same decision.
pub proof fn lemma_strand_irrelevant(opt: Opt, r1: AlnRecord, r2: AlnRecord)
    requires
        opt.filter_strand is None,
        r2.mapping_quality == r1.mapping_quality,
        r2.insert_size == r1.insert_size,
    ensures
        opt.passes(r1) == opt.passes(r2),
{
}

/// Every bound is inclusive: a record that sits exactly on an active bound
/// passes that bound's predicate.
pub proof fn lemma_boundary_inclusive(opt: Opt, r: AlnRecord)
    ensures
        (opt.min_mapping_quality matches Some(q) && r.mapping_quality == q) ==> opt.quality_ok(r),
        (opt.min_insertsize matches Some(m) && abs_val(r.insert_size as int) == m)
            ==> opt.min_size_ok(r),
        (opt.max_insertsize matches Some(m) && abs_val(r.insert_size as int) == m)
            ==> opt.max_size_ok(r),
{
}

} // verus!
