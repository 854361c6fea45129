//! The diagnostic data model: stack frames and exception records, with the
//! mathematical views that the contracts of this crate speak of.

use vstd::prelude::*;

verus! {

/// A single stack location.
#[derive(Debug, PartialEq, Eq)]
pub struct Frame {
    pub absolute_path: String,
    pub function_name: Option<String>,
    pub line: Option<u64>,
    pub column: Option<u64>,
}

/// What a [`Frame`] holds, as plain mathematical values.
pub struct FrameView {
    pub absolute_path: Seq<char>,
    pub function_name: Option<Seq<char>>,
    pub line: Option<u64>,
    pub column: Option<u64>,
}

/// One node of a flattened causal chain.
#[derive(Debug, PartialEq, Eq)]
pub struct ExceptionRecord {
    pub type_label: String,
    pub value: Option<String>,
    pub stacktrace: Option<Vec<Frame>>,
}

/// What an [`ExceptionRecord`] holds, as plain mathematical values.
pub struct RecordView {
    pub type_label: Seq<char>,
    pub value: Option<Seq<char>>,
    pub stacktrace: Option<Seq<FrameView>>,
}

/// The view of an optional text.
pub open spec fn text_view(text: Option<String>) -> Option<Seq<char>> {
    match text {
        Some(s) => Some(s@),
        None => None,
    }
}

/// The views of a sequence of frames, in order.
pub open spec fn frames_view(frames: Seq<Frame>) -> Seq<FrameView> {
    frames.map_values(|f: Frame| f@)
}

/// The view of an optional trace.
pub open spec fn trace_view(trace: Option<Vec<Frame>>) -> Option<Seq<FrameView>> {
    match trace {
        Some(frames) => Some(frames_view(frames@)),
        None => None,
    }
}

/// The views of a sequence of records, in order.
pub open spec fn records_view(records: Seq<ExceptionRecord>) -> Seq<RecordView> {
    records.map_values(|r: ExceptionRecord| r@)
}

impl View for Frame {
    type V = FrameView;

    open spec fn view(&self) -> FrameView {
        FrameView {
            absolute_path: self.absolute_path@,
            function_name: text_view(self.function_name),
            line: self.line,
            column: self.column,
        }
    }
}

impl View for ExceptionRecord {
    type V = RecordView;

    open spec fn view(&self) -> RecordView {
        RecordView {
            type_label: self.type_label@,
            value: text_view(self.value),
            stacktrace: trace_view(self.stacktrace),
        }
    }
}

impl RecordView {
    /// The same record with its trace cleared.
    pub open spec fn without_trace(self) -> RecordView {
        RecordView { type_label: self.type_label, value: self.value, stacktrace: None }
    }

    /// The same record with `trace` in place of its own.
    pub open spec fn with_trace(self, trace: Option<Seq<FrameView>>) -> RecordView {
        RecordView { type_label: self.type_label, value: self.value, stacktrace: trace }
    }
}

/// The frame that the four parts describe. A missing path is the empty
/// path; the other parts are kept as they are.
pub open spec fn frame_of_parts(
    parts: (Option<String>, Option<String>, Option<u64>, Option<u64>),
) -> FrameView {
    FrameView {
        absolute_path: match parts.0 {
            Some(path) => path@,
            None => Seq::empty(),
        },
        function_name: text_view(parts.1),
        line: parts.2,
        column: parts.3,
    }
}

/// Builds the frames that a list of parts (path, function, line, column)
/// describes, in order.
pub fn frames_from_parts(
    parts: Vec<(Option<String>, Option<String>, Option<u64>, Option<u64>)>,
) -> (frames: Vec<Frame>)
    ensures
        frames@.len() == parts@.len(),
        forall|i: int|
            0 <= i < parts@.len() ==> (#[trigger] frames@[i])@ == frame_of_parts(parts@[i]),
{
    let mut frames: Vec<Frame> = Vec::new();
    for part in it: parts
        invariant
            it.seq() == parts@,
            frames@.len() == it.index(),
            forall|i: int|
                0 <= i < it.index() ==> (#[trigger] frames@[i])@ == frame_of_parts(parts@[i]),
    {
        let (path, function_name, line, column) = part;
        let absolute_path = match path {
            Some(path) => path,
            None => String::new(),
        };
        frames.push(Frame { absolute_path, function_name, line, column });
    }
    frames
}

/// The four parts of a frame, as plain values.
pub open spec fn frame_parts_view(
    parts: (Option<String>, Option<String>, Option<u64>, Option<u64>),
) -> (Option<Seq<char>>, Option<Seq<char>>, Option<u64>, Option<u64>) {
    (text_view(parts.0), text_view(parts.1), parts.2, parts.3)
}

/// The parts of a record, as plain values: its type, its value, and the
/// parts of each of its frames.
pub open spec fn record_parts_view(
    parts: (
        String,
        Option<String>,
        Option<Vec<(Option<String>, Option<String>, Option<u64>, Option<u64>)>>,
    ),
) -> (
    Seq<char>,
    Option<Seq<char>>,
    Option<Seq<(Option<Seq<char>>, Option<Seq<char>>, Option<u64>, Option<u64>)>>,
) {
    (
        parts.0@,
        text_view(parts.1),
        match parts.2 {
            Some(frames) => Some(
                frames@.map_values(
                    |f: (Option<String>, Option<String>, Option<u64>, Option<u64>)|
                        frame_parts_view(f),
                ),
            ),
            None => None,
        },
    )
}

/// The frame that four parts describe: path, function, line and column. A
/// missing path is the empty path; the other parts are kept as they are.
pub open spec fn frame_described(
    parts: (Option<Seq<char>>, Option<Seq<char>>, Option<u64>, Option<u64>),
) -> FrameView {
    FrameView {
        absolute_path: match parts.0 {
            Some(path) => path,
            None => Seq::empty(),
        },
        function_name: parts.1,
        line: parts.2,
        column: parts.3,
    }
}

/// The record that the parts describe: the type is its label, the value
/// its value, and the frames, where there are any, its trace, frame for
/// frame and in the same order.
pub open spec fn record_described(
    parts: (
        Seq<char>,
        Option<Seq<char>>,
        Option<Seq<(Option<Seq<char>>, Option<Seq<char>>, Option<u64>, Option<u64>)>>,
    ),
) -> RecordView {
    RecordView {
        type_label: parts.0,
        value: parts.1,
        stacktrace: match parts.2 {
            Some(frames) => Some(
                frames.map_values(
                    |f: (Option<Seq<char>>, Option<Seq<char>>, Option<u64>, Option<u64>)|
                        frame_described(f),
                ),
            ),
            None => None,
        },
    }
}

/// Builds the record that a type, a value and the parts of the frames
/// describe.
pub fn record_from_parts(
    type_label: String,
    value: Option<String>,
    parts: Option<Vec<(Option<String>, Option<String>, Option<u64>, Option<u64>)>>,
) -> (record: ExceptionRecord)
    ensures
        record@ == record_described(record_parts_view((type_label, value, parts))),
{
    let stacktrace = match parts {
        Some(parts) => {
            let frames = frames_from_parts(parts);
            assert(frames_view(frames@) =~= parts@.map_values(
                |f: (Option<String>, Option<String>, Option<u64>, Option<u64>)|
                    frame_parts_view(f),
            ).map_values(
                |f: (Option<Seq<char>>, Option<Seq<char>>, Option<u64>, Option<u64>)|
                    frame_described(f),
            ));
            Some(frames)
        },
        None => None,
    };
    ExceptionRecord { type_label, value, stacktrace }
}

/// The same records in reverse order.
pub fn reverse_records(records: Vec<ExceptionRecord>) -> (reversed: Vec<ExceptionRecord>)
    ensures
        records_view(reversed@) == records_view(records@).reverse(),
        reversed@.len() == records@.len(),
{
    let ghost views = records_view(records@);
    let ghost total = records@.len();
    let mut rest = records;
    let mut reversed: Vec<ExceptionRecord> = Vec::new();
    while rest.len() > 0
        invariant
            views == records_view(records@),
            total == records@.len(),
            rest@.len() + reversed@.len() == total,
            forall|k: int| 0 <= k < rest@.len() ==> (#[trigger] rest@[k])@ == views[k],
            forall|k: int|
                0 <= k < reversed@.len() ==> (#[trigger] reversed@[k])@ == views[total - 1 - k],
        decreases rest.len(),
    {
        match rest.pop() {
            Some(record) => {
                reversed.push(record);
            },
            None => {},
        }
    }
    assert(records_view(reversed@) =~= views.reverse());
    reversed
}

/// A copy of an optional text.
pub fn copy_text(text: &Option<String>) -> (copy: Option<String>)
    ensures
        text_view(copy) == text_view(*text),
{
    match text {
        Some(s) => Some(s.clone()),
        None => None,
    }
}

/// A copy of a trace, frame by frame.
pub fn copy_frames(frames: &Vec<Frame>) -> (copy: Vec<Frame>)
    ensures
        frames_view(copy@) == frames_view(frames@),
{
    let mut copy: Vec<Frame> = Vec::new();
    let mut i: usize = 0;
    while i < frames.len()
        invariant
            i <= frames.len(),
            copy@.len() == i,
            forall|j: int| 0 <= j < i ==> copy@[j]@ == frames@[j]@,
        decreases frames.len() - i,
    {
        copy.push(frames[i].clone());
        i = i + 1;
    }
    assert(frames_view(copy@) =~= frames_view(frames@));
    copy
}

/// A copy of an optional trace.
pub fn copy_trace(trace: &Option<Vec<Frame>>) -> (copy: Option<Vec<Frame>>)
    ensures
        trace_view(copy) == trace_view(*trace),
{
    match trace {
        Some(frames) => Some(copy_frames(frames)),
        None => None,
    }
}

impl Clone for Frame {
    fn clone(&self) -> (copy: Frame)
        ensures
            copy@ == self@,
    {
        Frame {
            absolute_path: self.absolute_path.clone(),
            function_name: copy_text(&self.function_name),
            line: self.line,
            column: self.column,
        }
    }
}

impl Clone for ExceptionRecord {
    fn clone(&self) -> (copy: ExceptionRecord)
        ensures
            copy@ == self@,
    {
        ExceptionRecord {
            type_label: self.type_label.clone(),
            value: copy_text(&self.value),
            stacktrace: copy_trace(&self.stacktrace),
        }
    }
}

} // verus!
