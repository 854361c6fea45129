//! The two sinks of a report: the text block for the local log, and the
//! structured event for the remote backend.
//!
//! The log text lists the records wrapper first. The remote event lists the
//! same records root cause first.

use vstd::prelude::*;
use crate::filter::{is_excluded, path_excluded, surviving, texts_view};
use crate::record::{
    frames_view,
    records_view,
    reverse_records,
    ExceptionRecord,
    Frame,
    FrameView,
    RecordView,
};
use crate::text::{decimal, decimal_text, joined, lemma_joined_push};

verus! {

/// Severity of a remote event.
#[derive(Debug, Clone, Copy, PartialEq, Eq, Structural)]
pub enum Level {
    Debug,
    Info,
    Warning,
    Error,
    Fatal,
}

/// The structured event handed to the remote backend: a severity and the
/// exception list, root cause first.
#[derive(Debug, PartialEq, Eq)]
pub struct RemoteEvent {
    pub level: Level,
    pub exception: Vec<ExceptionRecord>,
}

/// How an optional number is rendered: a missing one as `0`.
pub open spec fn number_text(number: Option<u64>) -> Seq<char> {
    match number {
        Some(n) => decimal(n as nat),
        None => decimal(0),
    }
}

/// How an optional name is rendered: a missing one as the empty text.
pub open spec fn name_text(name: Option<Seq<char>>) -> Seq<char> {
    match name {
        Some(s) => s,
        None => Seq::empty(),
    }
}

/// The line of one frame: `path:line function column|`.
pub open spec fn frame_line(frame: FrameView) -> Seq<char> {
    frame.absolute_path + ":"@ + number_text(frame.line) + " "@ + name_text(frame.function_name)
        + " "@ + number_text(frame.column) + "|"@
}

/// A newline and the line of the frame.
pub open spec fn frame_entry(frame: FrameView) -> Seq<char> {
    "\n"@ + frame_line(frame)
}

/// The lines of the frames that survive path exclusion, each after a
/// newline, in trace order.
pub open spec fn frame_lines(frames: Seq<FrameView>, excluded: Seq<Seq<char>>) -> Seq<char> {
    joined(surviving(frames, excluded).map_values(|f: FrameView| frame_entry(f)))
}

/// The frame block of a record that has a trace: the surviving frame
/// lines, and one newline that ends the block.
pub open spec fn frame_block(frames: Seq<FrameView>, excluded: Seq<Seq<char>>) -> Seq<char> {
    frame_lines(frames, excluded) + "\n"@
}

/// The head of a record: ` -> `, the type label and, if there is a value,
/// a blank and the value.
pub open spec fn record_head(record: RecordView) -> Seq<char> {
    match record.value {
        Some(value) => " -> "@ + record.type_label + " "@ + value,
        None => " -> "@ + record.type_label,
    }
}

/// The text of one record: its head and, if it still has a trace, its
/// frame block.
pub open spec fn record_text(record: RecordView, excluded: Seq<Seq<char>>) -> Seq<char> {
    match record.stacktrace {
        Some(frames) => record_head(record) + frame_block(frames, excluded),
        None => record_head(record),
    }
}

/// The log text of a record sequence: the texts of the records in order,
/// with nothing between them.
pub open spec fn log_text(records: Seq<RecordView>, excluded: Seq<Seq<char>>) -> Seq<char> {
    joined(records.map_values(|r: RecordView| record_text(r, excluded)))
}

/// The log text of a single record without a trace is its head and nothing
/// more: ` -> `, the label and, if present, a blank and the value.
pub proof fn lemma_log_text_of_traceless_record(record: RecordView, excluded: Seq<Seq<char>>)
    requires
        record.stacktrace is None,
    ensures
        log_text(seq![record], excluded) == record_head(record),
        record.value is None ==> log_text(seq![record], excluded) == " -> "@ + record.type_label,
        record.value is Some ==> log_text(seq![record], excluded) == " -> "@ + record.type_label
            + " "@ + record.value.unwrap(),
{
    let texts = seq![record].map_values(|r: RecordView| record_text(r, excluded));
    assert(texts =~= Seq::<Seq<char>>::empty().push(record_head(record)));
    lemma_joined_push(Seq::empty(), record_head(record));
    assert(joined(Seq::<Seq<char>>::empty()) + record_head(record) =~= record_head(record));
}

/// The log text of a sequence is the log text of its front followed by the
/// text of its last record: records are rendered in order, wrapper first.
pub proof fn lemma_log_text_push(
    records: Seq<RecordView>,
    record: RecordView,
    excluded: Seq<Seq<char>>,
)
    ensures
        log_text(records.push(record), excluded) == log_text(records, excluded) + record_text(
            record,
            excluded,
        ),
{
    let texts = records.map_values(|r: RecordView| record_text(r, excluded));
    assert(records.push(record).map_values(|r: RecordView| record_text(r, excluded)) =~= texts.push(
        record_text(record, excluded),
    ));
    lemma_joined_push(texts, record_text(record, excluded));
}

/// Surviving frames of a trace extended by one frame.
pub proof fn lemma_surviving_push(
    frames: Seq<FrameView>,
    frame: FrameView,
    excluded: Seq<Seq<char>>,
)
    ensures
        surviving(frames.push(frame), excluded) == if path_excluded(
            frame.absolute_path,
            excluded,
        ) {
            surviving(frames, excluded)
        } else {
            surviving(frames, excluded).push(frame)
        },
{
    reveal(Seq::filter);
    assert(frames.push(frame).drop_last() =~= frames);
}

/// Frame lines of a trace extended by one frame: an excluded frame adds
/// nothing, any other adds a newline and its line.
pub proof fn lemma_frame_lines_push(
    frames: Seq<FrameView>,
    frame: FrameView,
    excluded: Seq<Seq<char>>,
)
    ensures
        frame_lines(frames.push(frame), excluded) == if path_excluded(
            frame.absolute_path,
            excluded,
        ) {
            frame_lines(frames, excluded)
        } else {
            frame_lines(frames, excluded) + frame_entry(frame)
        },
{
    lemma_surviving_push(frames, frame, excluded);
    if !path_excluded(frame.absolute_path, excluded) {
        let kept = surviving(frames, excluded);
        let entries = kept.map_values(|f: FrameView| frame_entry(f));
        assert(kept.push(frame).map_values(|f: FrameView| frame_entry(f)) =~= entries.push(
            frame_entry(frame),
        ));
        lemma_joined_push(entries, frame_entry(frame));
    }
}

/// Appends a number, or `0` for a missing one.
fn append_number(out: &mut String, number: Option<u64>)
    ensures
        final(out)@ == old(out)@ + number_text(number),
{
    let digits = match number {
        Some(n) => decimal_text(n),
        None => decimal_text(0),
    };
    out.append(digits.as_str());
}

/// Appends a newline and the line of `frame`.
fn append_frame_entry(out: &mut String, frame: &Frame)
    ensures
        final(out)@ == old(out)@ + frame_entry(frame@),
{
    out.append("\n");
    out.append(frame.absolute_path.as_str());
    out.append(":");
    append_number(out, frame.line);
    out.append(" ");
    match &frame.function_name {
        Some(name) => {
            out.append(name.as_str());
        },
        None => {
            assert(out@ + Seq::<char>::empty() =~= out@);
        },
    }
    out.append(" ");
    append_number(out, frame.column);
    out.append("|");
    assert(out@ =~= old(out)@ + frame_entry(frame@));
}

/// Appends the frame block of a trace.
fn append_frame_block(out: &mut String, frames: &Vec<Frame>, excluded: &Vec<String>)
    ensures
        final(out)@ == old(out)@ + frame_block(frames_view(frames@), texts_view(excluded@)),
{
    let ghost views = frames_view(frames@);
    let ghost fragments = texts_view(excluded@);
    let mut i: usize = 0;
    proof {
        reveal(Seq::filter);
        assert(views.take(0) =~= Seq::<FrameView>::empty());
        assert(surviving(views.take(0), fragments) =~= Seq::<FrameView>::empty());
        assert(frame_lines(views.take(0), fragments) =~= Seq::<char>::empty());
        assert(out@ + frame_lines(views.take(0), fragments) =~= out@);
    }
    while i < frames.len()
        invariant
            i <= frames.len(),
            views == frames_view(frames@),
            fragments == texts_view(excluded@),
            out@ == old(out)@ + frame_lines(views.take(i as int), fragments),
        decreases frames.len() - i,
    {
        let ghost before = out@;
        proof {
            assert(views[i as int] == frames@[i as int]@);
            assert(views.take(i + 1) =~= views.take(i as int).push(views[i as int]));
            lemma_frame_lines_push(views.take(i as int), views[i as int], fragments);
        }
        if !is_excluded(frames[i].absolute_path.as_str(), excluded) {
            append_frame_entry(out, &frames[i]);
            assert(out@ =~= old(out)@ + frame_lines(views.take(i + 1), fragments));
        }
        i = i + 1;
    }
    assert(views.take(i as int) =~= views);
    out.append("\n");
    assert(out@ =~= old(out)@ + frame_block(views, fragments));
}

/// Appends the text of one record.
fn append_record(out: &mut String, record: &ExceptionRecord, excluded: &Vec<String>)
    ensures
        final(out)@ == old(out)@ + record_text(record@, texts_view(excluded@)),
{
    out.append(" -> ");
    out.append(record.type_label.as_str());
    match &record.value {
        Some(value) => {
            out.append(" ");
            out.append(value.as_str());
        },
        None => {},
    }
    assert(out@ =~= old(out)@ + record_head(record@));
    match &record.stacktrace {
        Some(frames) => {
            append_frame_block(out, frames, excluded);
            assert(out@ =~= old(out)@ + record_text(record@, texts_view(excluded@)));
        },
        None => {},
    }
}

/// Renders a record sequence as one text block. For each record, in order:
/// ` -> ` and the type label; a blank and the value, if there is one; and,
/// if the record still has a trace, a newline and `path:line function
/// column|` for every frame whose path holds none of the `excluded`
/// fragments, then a newline that ends the block. A missing line or column
/// is written `0`, a missing function name as nothing.
pub fn render_log(records: &Vec<ExceptionRecord>, excluded: &Vec<String>) -> (text: String)
    ensures
        text@ == log_text(records_view(records@), texts_view(excluded@)),
{
    let ghost views = records_view(records@);
    let ghost fragments = texts_view(excluded@);
    let mut text = String::new();
    let mut i: usize = 0;
    proof {
        assert(views.take(0).map_values(|r: RecordView| record_text(r, fragments))
            =~= Seq::<Seq<char>>::empty());
        assert(log_text(views.take(0), fragments) =~= Seq::<char>::empty());
    }
    while i < records.len()
        invariant
            i <= records.len(),
            views == records_view(records@),
            fragments == texts_view(excluded@),
            text@ == log_text(views.take(i as int), fragments),
        decreases records.len() - i,
    {
        append_record(&mut text, &records[i], excluded);
        proof {
            assert(views[i as int] == records@[i as int]@);
            assert(views.take(i + 1) =~= views.take(i as int).push(views[i as int]));
            lemma_log_text_push(views.take(i as int), views[i as int], fragments);
        }
        i = i + 1;
    }
    assert(views.take(i as int) =~= views);
    text
}

/// Builds the remote event of a record sequence: severity `Error`, and the
/// records in reverse order, so that the root cause stands first and the
/// outermost wrapper last. The records themselves are not changed.
pub fn remote_event(records: Vec<ExceptionRecord>) -> (event: RemoteEvent)
    ensures
        event.level == Level::Error,
        records_view(event.exception@) == records_view(records@).reverse(),
        event.exception@.len() == records@.len(),
{
    let exception = reverse_records(records);
    RemoteEvent { level: Level::Error, exception }
}

/// The remote exception list is the exact reverse of the log's record
/// order: the record at index `i` of one is the record at index
/// `len - 1 - i` of the other, and reversing twice gives the log order
/// back.
pub proof fn lemma_remote_order_reverses_log_order(records: Seq<RecordView>)
    ensures
        records.reverse().len() == records.len(),
        forall|i: int|
            0 <= i < records.len() ==> #[trigger] records.reverse()[i] == records[records.len()
                - 1 - i],
        records.reverse().reverse() == records,
{
    assert(records.reverse().reverse() =~= records);
}

} // verus!
