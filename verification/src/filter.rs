//! Frame filtering: the entry-marker cut that trims a trace to application
//! code, and the path-exclusion rule that hides individual frames when a
//! trace is rendered.

use vstd::prelude::*;
use crate::record::{frames_view, records_view, ExceptionRecord, Frame, FrameView, RecordView};
use crate::text::{begins_with, contains, has_substring, starts_with};

verus! {

/// The strings that steer filtering: the function-name prefix that marks
/// where application code begins, and the path fragments whose frames are
/// left out of rendered text.
#[derive(Debug, PartialEq, Eq)]
pub struct FilterConfig {
    pub entry_marker: String,
    pub excluded_paths: Vec<String>,
}

/// The views of a sequence of texts, in order.
pub open spec fn texts_view(texts: Seq<String>) -> Seq<Seq<char>> {
    texts.map_values(|s: String| s@)
}

impl FilterConfig {
    /// The entry marker, as characters.
    pub open spec fn marker(self) -> Seq<char> {
        self.entry_marker@
    }

    /// The excluded path fragments, as characters.
    pub open spec fn excluded(self) -> Seq<Seq<char>> {
        texts_view(self.excluded_paths@)
    }

    /// The entry marker of the standard configuration.
    pub open spec fn standard_marker() -> Seq<char> {
        "rust_trace_demo"@
    }

    /// The excluded path fragments of the standard configuration.
    pub open spec fn standard_excluded() -> Seq<Seq<char>> {
        seq!["failure-0."@, "libcore"@, "backtrace-"@, "src/errors.rs"@, "sugar-rs"@]
    }

    /// The standard configuration: traces are cut at the first frame of
    /// `rust_trace_demo`, and frames of the error library, the core
    /// runtime, the backtrace machinery and the reporting module itself are
    /// not rendered.
    pub fn standard() -> (config: FilterConfig)
        ensures
            config.marker() == FilterConfig::standard_marker(),
            config.excluded() == FilterConfig::standard_excluded(),
    {
        let mut excluded_paths: Vec<String> = Vec::new();
        excluded_paths.push(String::from_str("failure-0."));
        excluded_paths.push(String::from_str("libcore"));
        excluded_paths.push(String::from_str("backtrace-"));
        excluded_paths.push(String::from_str("src/errors.rs"));
        excluded_paths.push(String::from_str("sugar-rs"));
        let config = FilterConfig {
            entry_marker: String::from_str("rust_trace_demo"),
            excluded_paths,
        };
        assert(config.excluded() =~= FilterConfig::standard_excluded());
        config
    }
}

/// The frame belongs to application code: it has a function name, and the
/// name begins with the entry marker.
pub open spec fn is_entry(frame: FrameView, marker: Seq<char>) -> bool {
    match frame.function_name {
        Some(name) => begins_with(name, marker),
        None => false,
    }
}

/// Some frame of the trace is an entry frame.
pub open spec fn has_entry(frames: Seq<FrameView>, marker: Seq<char>) -> bool {
    exists|k: int| 0 <= k < frames.len() && is_entry(#[trigger] frames[k], marker)
}

/// `k` is the index of the first entry frame of the trace.
pub open spec fn is_first_entry(frames: Seq<FrameView>, marker: Seq<char>, k: int) -> bool {
    &&& 0 <= k < frames.len()
    &&& is_entry(frames[k], marker)
    &&& forall|j: int| 0 <= j < k ==> !is_entry(#[trigger] frames[j], marker)
}

/// Where the trimmed trace starts: at the first entry frame, or at 0 when
/// the trace has none.
pub open spec fn entry_offset(frames: Seq<FrameView>, marker: Seq<char>) -> int {
    if has_entry(frames, marker) {
        choose|k: int| is_first_entry(frames, marker, k)
    } else {
        0
    }
}

/// The trace from its first entry frame on; the whole trace when it has no
/// entry frame.
pub open spec fn trimmed(frames: Seq<FrameView>, marker: Seq<char>) -> Seq<FrameView> {
    frames.skip(entry_offset(frames, marker))
}

/// The trimmed form of an optional trace.
pub open spec fn trimmed_trace(trace: Option<Seq<FrameView>>, marker: Seq<char>) -> Option<
    Seq<FrameView>,
> {
    match trace {
        Some(frames) => Some(trimmed(frames, marker)),
        None => None,
    }
}

/// The records with every trace trimmed; labels, values and the absence of
/// a trace are kept.
pub open spec fn trimmed_records(records: Seq<RecordView>, marker: Seq<char>) -> Seq<RecordView> {
    records.map_values(|r: RecordView| r.with_trace(trimmed_trace(r.stacktrace, marker)))
}

/// The path contains one of the excluded fragments.
pub open spec fn path_excluded(path: Seq<char>, excluded: Seq<Seq<char>>) -> bool {
    exists|i: int| 0 <= i < excluded.len() && has_substring(path, #[trigger] excluded[i])
}

/// The frames of a trace that are rendered: those whose path holds no
/// excluded fragment, in trace order.
pub open spec fn surviving(frames: Seq<FrameView>, excluded: Seq<Seq<char>>) -> Seq<FrameView> {
    frames.filter(|f: FrameView| !path_excluded(f.absolute_path, excluded))
}

/// A trace has at most one first entry frame.
pub proof fn lemma_first_entry_unique(
    frames: Seq<FrameView>,
    marker: Seq<char>,
    k1: int,
    k2: int,
)
    requires
        is_first_entry(frames, marker, k1),
        is_first_entry(frames, marker, k2),
    ensures
        k1 == k2,
{
    if k1 < k2 {
        assert(!is_entry(frames[k1], marker));
    } else if k2 < k1 {
        assert(!is_entry(frames[k2], marker));
    }
}

/// A trace whose first entry frame stands at index `k` is trimmed to the
/// frames from `k` to the end.
pub proof fn lemma_trim_from_first_entry(frames: Seq<FrameView>, marker: Seq<char>, k: int)
    requires
        is_first_entry(frames, marker, k),
    ensures
        entry_offset(frames, marker) == k,
        trimmed(frames, marker) == frames.subrange(k, frames.len() as int),
{
    assert(is_entry(frames[k], marker));
    assert(has_entry(frames, marker));
    let chosen = choose|c: int| is_first_entry(frames, marker, c);
    lemma_first_entry_unique(frames, marker, chosen, k);
}

/// A trace without an entry frame is left whole by trimming.
pub proof fn lemma_trim_without_entry(frames: Seq<FrameView>, marker: Seq<char>)
    requires
        !has_entry(frames, marker),
    ensures
        entry_offset(frames, marker) == 0,
        trimmed(frames, marker) == frames,
{
    assert(frames.skip(0) =~= frames);
}

/// Trimming keeps a suffix of the trace: nothing is reordered or invented.
pub proof fn lemma_trimmed_is_suffix(frames: Seq<FrameView>, marker: Seq<char>)
    ensures
        0 <= entry_offset(frames, marker) <= frames.len(),
        trimmed(frames, marker).len() == frames.len() - entry_offset(frames, marker),
        forall|i: int|
            0 <= i < trimmed(frames, marker).len() ==> trimmed(frames, marker)[i] == frames[i
                + entry_offset(frames, marker)],
        frames.len() > 0 ==> trimmed(frames, marker).len() > 0,
{
    if has_entry(frames, marker) {
        let k = choose|k: int| 0 <= k < frames.len() && is_entry(#[trigger] frames[k], marker);
        lemma_first_entry_exists(frames, marker, k);
    }
}

/// If the frame at index `k` is an entry frame, the trace has a first one,
/// at or before `k`.
pub proof fn lemma_first_entry_exists(frames: Seq<FrameView>, marker: Seq<char>, k: int)
    requires
        0 <= k < frames.len(),
        is_entry(frames[k], marker),
    ensures
        exists|first: int| 0 <= first <= k && is_first_entry(frames, marker, first),
        0 <= entry_offset(frames, marker) <= k,
        is_first_entry(frames, marker, entry_offset(frames, marker)),
    decreases k,
{
    if exists|j: int| 0 <= j < k && is_entry(#[trigger] frames[j], marker) {
        let j = choose|j: int| 0 <= j < k && is_entry(#[trigger] frames[j], marker);
        lemma_first_entry_exists(frames, marker, j);
        let first = choose|first: int| 0 <= first <= j && is_first_entry(frames, marker, first);
        assert(0 <= first <= k && is_first_entry(frames, marker, first));
    } else {
        assert(is_first_entry(frames, marker, k));
    }
    let first = choose|first: int| 0 <= first <= k && is_first_entry(frames, marker, first);
    lemma_trim_from_first_entry(frames, marker, first);
}

/// Whether the frame's function name begins with the marker.
pub fn frame_is_entry(frame: &Frame, marker: &str) -> (found: bool)
    ensures
        found == is_entry(frame@, marker@),
{
    match &frame.function_name {
        Some(name) => starts_with(name.as_str(), marker),
        None => false,
    }
}

/// The index of the first frame whose function name begins with `marker`;
/// 0 when no frame's does.
pub fn find_entry(frames: &Vec<Frame>, marker: &str) -> (offset: usize)
    ensures
        offset == entry_offset(frames_view(frames@), marker@),
        offset <= frames.len(),
{
    let ghost views = frames_view(frames@);
    let mut i: usize = 0;
    while i < frames.len()
        invariant
            i <= frames.len(),
            views == frames_view(frames@),
            forall|j: int| 0 <= j < i ==> !is_entry(#[trigger] views[j], marker@),
        decreases frames.len() - i,
    {
        if frame_is_entry(&frames[i], marker) {
            proof {
                assert(views[i as int] == frames@[i as int]@);
                assert(is_first_entry(views, marker@, i as int));
                lemma_trim_from_first_entry(views, marker@, i as int);
            }
            return i;
        }
        assert(views[i as int] == frames@[i as int]@);
        i = i + 1;
    }
    assert(!has_entry(views, marker@));
    0
}

/// Cuts a trace at its first entry frame: the result holds the frames from
/// the first one whose function name begins with `marker` to the end, and
/// the whole trace when no frame's does.
pub fn trim(frames: Vec<Frame>, marker: &str) -> (kept: Vec<Frame>)
    ensures
        frames_view(kept@) == trimmed(frames_view(frames@), marker@),
{
    let offset = find_entry(&frames, marker);
    let mut head = frames;
    let kept = head.split_off(offset);
    assert(frames_view(kept@) =~= trimmed(frames_view(frames@), marker@));
    kept
}

/// Trims the trace of every record that has one; see [`trim`]. Records
/// keep their order, their labels and their values.
pub fn trim_records(records: Vec<ExceptionRecord>, marker: &str) -> (kept: Vec<ExceptionRecord>)
    ensures
        records_view(kept@) == trimmed_records(records_view(records@), marker@),
        kept@.len() == records@.len(),
{
    let ghost views = records_view(records@);
    let mut kept: Vec<ExceptionRecord> = Vec::new();
    for record in it: records
        invariant
            views == records_view(records@),
            it.seq() == records@,
            kept@.len() == it.index(),
            forall|k: int|
                0 <= k < it.index() ==> (#[trigger] kept@[k])@ == trimmed_records(
                    views,
                    marker@,
                )[k],
    {
        let ghost i = it.index() as int;
        assert(views[i] == record@);
        let ExceptionRecord { type_label, value, stacktrace } = record;
        let stacktrace = match stacktrace {
            Some(frames) => Some(trim(frames, marker)),
            None => None,
        };
        kept.push(ExceptionRecord { type_label, value, stacktrace });
    }
    assert(records_view(kept@) =~= trimmed_records(views, marker@));
    kept
}

/// Whether `path` contains one of the `excluded` fragments.
pub fn is_excluded(path: &str, excluded: &Vec<String>) -> (found: bool)
    ensures
        found == path_excluded(path@, texts_view(excluded@)),
{
    let ghost fragments = texts_view(excluded@);
    let mut i: usize = 0;
    while i < excluded.len()
        invariant
            i <= excluded.len(),
            fragments == texts_view(excluded@),
            forall|j: int| 0 <= j < i ==> !has_substring(path@, #[trigger] fragments[j]),
        decreases excluded.len() - i,
    {
        assert(fragments[i as int] == excluded@[i as int]@);
        if contains(path, excluded[i].as_str()) {
            return true;
        }
        i = i + 1;
    }
    false
}

} // verus!
