//! Trace deduplication: a content hash of each record's raw trace, and the
//! rule that only the first record with a given hash keeps its trace.

use std::collections::hash_map::DefaultHasher;
use std::collections::HashSet;
use std::hash::Hasher;
use vstd::prelude::*;
use vstd::std_specs::hash::DefaultHasherAdditionalSpecFns;
use vstd::utf8::encode_utf8;
use crate::record::{frames_view, records_view, ExceptionRecord, Frame, FrameView, RecordView};
use crate::key::{lemma_trace_key_injective, raw_trace_text, trace_key};

verus! {

/// The hash of a text: what the standard hasher returns after the text's
/// UTF-8 bytes were written to it in one piece.
pub open spec fn text_hash(text: Seq<char>) -> u64 {
    DefaultHasher::spec_finish(seq![encode_utf8(text)])
}

/// The content hash of a raw trace.
pub open spec fn trace_hash(frames: Seq<FrameView>) -> u64 {
    text_hash(trace_key(frames))
}

/// The record has a trace, and the trace's content hash is `hash`.
pub open spec fn has_hash(record: RecordView, hash: u64) -> bool {
    match record.stacktrace {
        Some(frames) => trace_hash(frames) == hash,
        None => false,
    }
}

/// The record at index `i` has a trace whose content hash was already seen
/// on an earlier record of the sequence.
pub open spec fn is_repeat(records: Seq<RecordView>, i: int) -> bool {
    match records[i].stacktrace {
        Some(frames) => exists|j: int|
            0 <= j < i && has_hash(#[trigger] records[j], trace_hash(frames)),
        None => false,
    }
}

/// The records after deduplication: every record keeps its label and its
/// value; a record whose trace repeats an earlier hash has its trace
/// cleared, and every other record is left as it was.
pub open spec fn deduplicated(records: Seq<RecordView>) -> Seq<RecordView> {
    Seq::new(
        records.len(),
        |i: int|
            if is_repeat(records, i) {
                records[i].without_trace()
            } else {
                records[i]
            },
    )
}

/// Of two records with the same raw trace, the later one loses its trace.
pub proof fn lemma_repeated_trace_is_cleared(records: Seq<RecordView>, i: int, j: int)
    requires
        0 <= i < j < records.len(),
        records[i].stacktrace is Some,
        records[i].stacktrace == records[j].stacktrace,
    ensures
        deduplicated(records)[j].stacktrace is None,
        deduplicated(records)[j].type_label == records[j].type_label,
        deduplicated(records)[j].value == records[j].value,
{
    let frames = records[j].stacktrace.unwrap();
    assert(has_hash(records[i], trace_hash(frames)));
    assert(is_repeat(records, j));
}

/// A record whose trace hash occurs on no earlier record is left intact.
pub proof fn lemma_first_trace_is_kept(records: Seq<RecordView>, i: int)
    requires
        0 <= i < records.len(),
        records[i].stacktrace is Some,
        forall|k: int|
            0 <= k < i ==> !has_hash(
                #[trigger] records[k],
                trace_hash(records[i].stacktrace.unwrap()),
            ),
    ensures
        deduplicated(records)[i] == records[i],
{
    assert(!is_repeat(records, i));
}

/// Of two records with the same raw trace that make up a chain, the first
/// keeps its trace and the second loses it.
pub proof fn lemma_identical_traces_keep_the_earlier(first: RecordView, second: RecordView)
    requires
        first.stacktrace is Some,
        first.stacktrace == second.stacktrace,
    ensures
        deduplicated(seq![first, second]) == seq![first, second.without_trace()],
{
    let records = seq![first, second];
    assert(!is_repeat(records, 0));
    lemma_repeated_trace_is_cleared(records, 0, 1);
    assert(is_repeat(records, 1)) by {
        assert(has_hash(records[0], trace_hash(second.stacktrace.unwrap())));
    }
    assert(deduplicated(records) =~= seq![first, second.without_trace()]);
}

/// Two records whose traces have different hashes do not clear each other:
/// in a chain of exactly these two, both keep their traces.
pub proof fn lemma_distinct_traces_both_kept(first: RecordView, second: RecordView)
    requires
        first.stacktrace is Some,
        second.stacktrace is Some,
        trace_hash(first.stacktrace.unwrap()) != trace_hash(second.stacktrace.unwrap()),
    ensures
        deduplicated(seq![first, second]) == seq![first, second],
{
    let records = seq![first, second];
    assert(!is_repeat(records, 0));
    assert(!is_repeat(records, 1)) by {
        if is_repeat(records, 1) {
            let j = choose|j: int|
                0 <= j < 1 && has_hash(
                    #[trigger] records[j],
                    trace_hash(second.stacktrace.unwrap()),
                );
            assert(records[j] == first);
        }
    }
    assert(deduplicated(records) =~= records);
}

/// Two traces with the same hash are the same trace, or the hasher maps
/// their two different keys to one value: the key itself never makes two
/// traces collide.
pub proof fn lemma_equal_hashes_of_distinct_traces(a: Seq<FrameView>, b: Seq<FrameView>)
    requires
        a != b,
        trace_hash(a) == trace_hash(b),
    ensures
        trace_key(a) != trace_key(b),
        text_hash(trace_key(a)) == text_hash(trace_key(b)),
{
    if trace_key(a) == trace_key(b) {
        lemma_trace_key_injective(a, b);
    }
}

/// A record without a trace is never touched.
pub proof fn lemma_traceless_record_untouched(records: Seq<RecordView>, i: int)
    requires
        0 <= i < records.len(),
        records[i].stacktrace is None,
    ensures
        deduplicated(records)[i] == records[i],
{
}

/// After deduplication no two records retain traces with the same hash; in
/// particular no two retain the same trace.
pub proof fn lemma_retained_traces_differ(records: Seq<RecordView>, i: int, j: int)
    requires
        0 <= i < j < records.len(),
        deduplicated(records)[i].stacktrace is Some,
        deduplicated(records)[j].stacktrace is Some,
    ensures
        trace_hash(deduplicated(records)[i].stacktrace.unwrap()) != trace_hash(
            deduplicated(records)[j].stacktrace.unwrap(),
        ),
        deduplicated(records)[i].stacktrace != deduplicated(records)[j].stacktrace,
{
    assert(!is_repeat(records, j));
    assert(!is_repeat(records, i));
    assert(deduplicated(records)[i] == records[i]);
    assert(deduplicated(records)[j] == records[j]);
    let hash = trace_hash(records[j].stacktrace.unwrap());
    if trace_hash(records[i].stacktrace.unwrap()) == hash {
        assert(has_hash(records[i], hash));
    }
}

/// The content hash of a text: the standard hasher's result for its bytes.
pub fn calculate_hash(text: &str) -> (hash: u64)
    ensures
        hash == text_hash(text@),
{
    let mut state = DefaultHasher::new();
    state.write(text.as_bytes());
    assert(state@ =~= seq![encode_utf8(text@)]);
    state.finish()
}

/// The content hash of a raw trace.
pub fn trace_fingerprint(frames: &Vec<Frame>) -> (hash: u64)
    ensures
        hash == trace_hash(frames_view(frames@)),
{
    let key = raw_trace_text(frames);
    calculate_hash(key.as_str())
}

/// Clears the trace of every record whose raw trace has the content hash of
/// an earlier record's trace. Records are visited in order, so the earliest
/// record with a given hash keeps its trace. Records without a trace are
/// skipped: they are not hashed and not changed. Labels and values are
/// never changed.
pub fn deduplicate(records: Vec<ExceptionRecord>) -> (kept: Vec<ExceptionRecord>)
    ensures
        records_view(kept@) == deduplicated(records_view(records@)),
        kept@.len() == records@.len(),
{
    let ghost views = records_view(records@);
    let mut seen: HashSet<u64> = HashSet::new();
    let mut kept: Vec<ExceptionRecord> = Vec::new();
    for record in it: records
        invariant
            views == records_view(records@),
            it.seq() == records@,
            kept@.len() == it.index(),
            forall|k: int| 0 <= k < it.index() ==> (#[trigger] kept@[k])@ == deduplicated(views)[k],
            forall|hash: u64|
                seen@.contains(hash) <==> exists|j: int|
                    0 <= j < it.index() && has_hash(#[trigger] views[j], hash),
    {
        let ghost i = it.index() as int;
        let ghost before = seen@;
        assert(views[i] == record@);
        let ExceptionRecord { type_label, value, stacktrace } = record;
        let stacktrace = match stacktrace {
            Some(frames) => {
                let hash = trace_fingerprint(&frames);
                let fresh = seen.insert(hash);
                proof {
                    assert(has_hash(views[i], hash));
                    assert(fresh == !is_repeat(views, i));
                    assert forall|h: u64| seen@.contains(h) <==> exists|j: int|
                        0 <= j < i + 1 && has_hash(#[trigger] views[j], h) by {
                        if seen@.contains(h) {
                            if h == hash {
                                assert(has_hash(views[i], h));
                            } else {
                                assert(before.contains(h));
                                let j = choose|j: int|
                                    0 <= j < i && has_hash(#[trigger] views[j], h);
                                assert(0 <= j < i + 1 && has_hash(views[j], h));
                            }
                        }
                        if exists|j: int| 0 <= j < i + 1 && has_hash(#[trigger] views[j], h) {
                            let j = choose|j: int|
                                0 <= j < i + 1 && has_hash(#[trigger] views[j], h);
                            if j < i {
                                assert(before.contains(h));
                            }
                        }
                    }
                }
                if fresh {
                    Some(frames)
                } else {
                    None
                }
            },
            None => {
                proof {
                    assert(!is_repeat(views, i));
                    assert forall|h: u64| seen@.contains(h) <==> exists|j: int|
                        0 <= j < i + 1 && has_hash(#[trigger] views[j], h) by {
                        if seen@.contains(h) {
                            let j = choose|j: int|
                                0 <= j < i && has_hash(#[trigger] views[j], h);
                            assert(0 <= j < i + 1 && has_hash(views[j], h));
                        }
                        if exists|j: int| 0 <= j < i + 1 && has_hash(#[trigger] views[j], h) {
                            let j = choose|j: int|
                                0 <= j < i + 1 && has_hash(#[trigger] views[j], h);
                            assert(j < i);
                        }
                    }
                }
                None
            },
        };
        kept.push(ExceptionRecord { type_label, value, stacktrace });
        assert(kept@[i]@ == deduplicated(views)[i]);
    }
    assert(records_view(kept@) =~= deduplicated(views));
    kept
}

} // verus!
