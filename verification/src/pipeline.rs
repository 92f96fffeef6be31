//! The streaming pipeline: a one-pass, order-preserving drive over an
//! ordered record stream that forwards exactly the records the predicate
//! set accepts, and halts on the first malformed record.

use vstd::prelude::*;

use crate::filter::AlnRecord;
use crate::filter::Opt;

verus! {

/// The records of a stream that pass the predicate set, as a subsequence in
/// original order.
pub open spec fn filtered(opt: Opt, s: Seq<AlnRecord>) -> Seq<AlnRecord> {
    s.filter(|r: AlnRecord| opt.passes(r))
}

/// Extending a stream by one record extends its filtered subsequence by that
/// record exactly when the record passes.
proof fn lemma_filtered_push(opt: Opt, s: Seq<AlnRecord>, x: AlnRecord)
    ensures
        filtered(opt, s.push(x)) == if opt.passes(x) {
            filtered(opt, s).push(x)
        } else {
            filtered(opt, s)
        },
{
    reveal(Seq::filter);
    assert(s.push(x).drop_last() =~= s);
}

/// Keeps, in original order, exactly the records that pass all active
/// predicates. This is the record-level core of the pipeline: the output is
/// the subsequence of the input consisting of the passing records.
pub fn filter_records(opt: &Opt, records: &Vec<AlnRecord>) -> (out: Vec<AlnRecord>)
    ensures
        out@ == filtered(*opt, records@),
{
    let mut out: Vec<AlnRecord> = Vec::new();
    let mut i: usize = 0;
    while i < records.len()
        invariant
            i <= records.len(),
            out@ == filtered(*opt, records@.subrange(0, i as int)),
        decreases records.len() - i,
    {
        let r = records[i];
        proof {
            assert(records@.subrange(0, i + 1).drop_last() =~= records@.subrange(0, i as int));
            assert(records@.subrange(0, i + 1) =~= records@.subrange(0, i as int).push(r));
            lemma_filtered_push(*opt, records@.subrange(0, i as int), r);
        }
        if opt.decide(&r) {
            out.push(r);
        }
        i = i + 1;
    }
    proof {
        assert(records@.subrange(0, records@.len() as int) =~= records@);
    }
    out
}

/// One step of the source: either a fully decoded record, in original
/// order, or a record that could not be decoded.
#[derive(Clone, Copy, Debug, PartialEq, Eq, Structural)]
pub enum SourceEvent {
    Record(AlnRecord),
    Malformed,
}

/// The error a run surfaces when the source fails to decode a record.
#[derive(Clone, Copy, Debug, PartialEq, Eq, Structural)]
pub enum StreamError {
    Decode,
}

/// The length of the longest prefix of the stream in which every event is a
/// decoded record: the whole stream if no event is malformed, else the
/// index of the first malformed event.
pub open spec fn clean_prefix(events: Seq<SourceEvent>) -> int
    decreases events.len(),
{
    if events.len() == 0 {
        0
    } else if events[0] is Malformed {
        0
    } else {
        1 + clean_prefix(events.drop_first())
    }
}

/// The records carried by a stream of decoded-record events.
pub open spec fn records_of(events: Seq<SourceEvent>) -> Seq<AlnRecord> {
    events.map_values(|e: SourceEvent| e->Record_0)
}

/// A position up to which every event is a record, followed by the stream's
/// end or a malformed event, is exactly the clean prefix length.
proof fn lemma_clean_prefix_at(events: Seq<SourceEvent>, i: int)
    requires
        0 <= i <= events.len(),
        forall|j: int| 0 <= j < i ==> events[j] is Record,
        i == events.len() || events[i] is Malformed,
    ensures
        clean_prefix(events) == i,
    decreases i,
{
    if i == 0 {
    } else {
        assert(events[0] is Record);
        assert forall|j: int| 0 <= j < i - 1 implies events.drop_first()[j] is Record by {
            assert(events[j + 1] is Record);
        }
        lemma_clean_prefix_at(events.drop_first(), i - 1);
    }
}

/// Drives the stream: consumes the source's events in order and forwards
/// each passing record to the output, one record at a time, with no
/// reordering and no look-ahead. On the first malformed event the run halts
/// and surfaces a decode error; everything forwarded before that point
/// stays committed. On exhaustion it succeeds and reports how many records
/// were written. The sink's header must have been put in place by the
/// caller before this runs, whether or not any record passes.
pub fn run(opt: &Opt, events: &Vec<SourceEvent>) -> (out: (
    Vec<AlnRecord>,
    Result<usize, StreamError>,
))
    ensures
        out.0@ == filtered(*opt, records_of(events@.subrange(0, clean_prefix(events@)))),
        clean_prefix(events@) == events@.len() ==> out.1 == Ok::<usize, StreamError>(
            out.0.len(),
        ),
        clean_prefix(events@) < events@.len() ==> out.1 == Err::<usize, StreamError>(
            StreamError::Decode,
        ),
{
    let mut written: Vec<AlnRecord> = Vec::new();
    let mut i: usize = 0;
    while i < events.len()
        invariant
            i <= events.len(),
            forall|j: int| 0 <= j < i ==> events@[j] is Record,
            written@ == filtered(*opt, records_of(events@.subrange(0, i as int))),
        decreases events.len() - i,
    {
        match events[i] {
            SourceEvent::Record(r) => {
                proof {
                    let prefix = events@.subrange(0, i as int);
                    assert(events@.subrange(0, i + 1) =~= prefix.push(events@[i as int]));
                    assert(records_of(prefix.push(events@[i as int])) =~= records_of(
                        prefix,
                    ).push(r));
                    lemma_filtered_push(*opt, records_of(prefix), r);
                }
                if opt.decide(&r) {
                    written.push(r);
                }
            },
            SourceEvent::Malformed => {
                proof {
                    lemma_clean_prefix_at(events@, i as int);
                }
                return (written, Err(StreamError::Decode));
            },
        }
        i = i + 1;
    }
    proof {
        lemma_clean_prefix_at(events@, events@.len() as int);
    }
    let count = written.len();
    (written, Ok(count))
}

/// With all predicate fields absent the pipeline is the identity: the
/// filtered subsequence of any stream is the stream itself, same records,
/// same order, same count.
pub proof fn lemma_identity_filter(opt: Opt, s: Seq<AlnRecord>)
    requires
        opt.is_identity(),
    ensures
        filtered(opt, s) == s,
    decreases s.len(),
{
    reveal(Seq::filter);
    if s.len() == 0 {
        assert(filtered(opt, s) =~= s);
    } else {
        lemma_identity_filter(opt, s.drop_last());
        assert(filtered(opt, s) =~= s);
    }
}

/// Every record of the filtered subsequence passes the predicate set, and
/// every passing record of the stream appears in it: the output is made of
/// exactly the passing records, in original order.
pub proof fn lemma_filtered_elements(opt: Opt, s: Seq<AlnRecord>)
    ensures
        filtered(opt, s).len() <= s.len(),
        forall|i: int|
            0 <= i < filtered(opt, s).len() ==> opt.passes(#[trigger] filtered(opt, s)[i]),
        forall|i: int|
            0 <= i < s.len() && opt.passes(#[trigger] s[i]) ==> filtered(opt, s).contains(s[i]),
{
    broadcast use vstd::seq_lib::group_filter_ensures;

    assert(filtered(opt, s) == s.filter(|r: AlnRecord| opt.passes(r)));
}

/// Pointwise implication between two predicate sets bounds the filtered
/// lengths: a stricter set never keeps more records.
proof fn lemma_filtered_len_pointwise(o1: Opt, o2: Opt, s: Seq<AlnRecord>)
    requires
        forall|r: AlnRecord| o2.passes(r) ==> o1.passes(r),
    ensures
        filtered(o2, s).len() <= filtered(o1, s).len(),
    decreases s.len(),
{
    reveal(Seq::filter);
    if s.len() > 0 {
        lemma_filtered_len_pointwise(o1, o2, s.drop_last());
    }
}

/// Whether the second configuration raises the mapping-quality bound of the
/// first and changes nothing else.
pub open spec fn raises_quality_bound(o1: Opt, o2: Opt) -> bool {
    &&& o2.filter_strand == o1.filter_strand
    &&& o2.min_insertsize == o1.min_insertsize
    &&& o2.max_insertsize == o1.max_insertsize
    &&& match (o1.min_mapping_quality, o2.min_mapping_quality) {
        (None, _) => true,
        (Some(q1), Some(q2)) => q1 <= q2,
        (Some(_), None) => false,
    }
}

/// Raising the minimum mapping quality never increases the number of
/// passing records of a fixed stream.
pub proof fn lemma_quality_monotone(o1: Opt, o2: Opt, s: Seq<AlnRecord>)
    requires
        raises_quality_bound(o1, o2),
    ensures
        filtered(o2, s).len() <= filtered(o1, s).len(),
{
    assert forall|r: AlnRecord| o2.passes(r) implies o1.passes(r) by {
        assert(o2.quality_ok(r) ==> o1.quality_ok(r));
    }
    lemma_filtered_len_pointwise(o1, o2, s);
}

/// A predicate set that rejects every record filters every stream to the
/// empty sequence.
proof fn lemma_filtered_none(opt: Opt, s: Seq<AlnRecord>)
    requires
        forall|r: AlnRecord| !opt.passes(r),
    ensures
        filtered(opt, s) == Seq::<AlnRecord>::empty(),
    decreases s.len(),
{
    reveal(Seq::filter);
    if s.len() == 0 {
        assert(filtered(opt, s) =~= Seq::<AlnRecord>::empty());
    } else {
        lemma_filtered_none(opt, s.drop_last());
        assert(filtered(opt, s) =~= Seq::<AlnRecord>::empty());
    }
}

/// A minimum insert size above the maximum rejects every record, whatever
/// its content: the output holds zero records. The configuration is not an
/// error; the run still succeeds with an empty, well-formed output.
pub proof fn lemma_contradictory_bounds(opt: Opt, s: Seq<AlnRecord>)
    requires
        opt.min_insertsize is Some,
        opt.max_insertsize is Some,
        opt.min_insertsize->0 > opt.max_insertsize->0,
    ensures
        forall|r: AlnRecord| !opt.passes(r),
        filtered(opt, s) == Seq::<AlnRecord>::empty(),
{
    assert forall|r: AlnRecord| !opt.passes(r) by {
        assert(!(opt.min_size_ok(r) && opt.max_size_ok(r)));
    }
    lemma_filtered_none(opt, s);
}

} // verus!
