//! Classified errors and the reporting pipeline: flatten the chain of a
//! classified error, clear repeated traces, trim the traces that remain,
//! and build the two reports, the log text and the remote event.

use vstd::prelude::*;
use crate::chain::{chain_from_records, flatten, lemma_flatten_one_record_per_node, Failure};
use crate::dedup::{deduplicate, deduplicated, is_repeat, lemma_repeated_trace_is_cleared};
use crate::filter::{trim_records, trimmed_records, trimmed_trace, FilterConfig};
use crate::outside::{
    chain_depth,
    chain_length,
    drop_value,
    exception_at,
    exception_content,
    exception_parts,
};
use crate::record::{
    record_described,
    record_from_parts,
    records_view,
    ExceptionRecord,
    Frame,
    RecordView,
};
use crate::sink::{
    log_text,
    record_head,
    record_text,
    remote_event,
    render_log,
    Level,
    RemoteEvent,
};

verus! {

/// The classification attached to a reported failure. It labels the report
/// and never changes what the pipeline does.
#[derive(Debug, Clone, Copy, PartialEq, Eq, Structural)]
pub enum ErrKind {
    AppFail,
    OtherFail,
}

impl ErrKind {
    /// The symbolic name of the kind.
    pub open spec fn label(self) -> Seq<char> {
        match self {
            ErrKind::AppFail => "AppFail"@,
            ErrKind::OtherFail => "OtherFail"@,
        }
    }

    /// The symbolic name of the kind, as text.
    pub fn name(&self) -> (name: String)
        ensures
            name@ == self.label(),
    {
        match self {
            ErrKind::AppFail => String::from_str("AppFail"),
            ErrKind::OtherFail => String::from_str("OtherFail"),
        }
    }
}

/// A failure with a classification and a short message attached. The
/// failure it classifies is kept as its cause; kind, message and cause are
/// fixed when the value is made.
#[derive(Debug, PartialEq, Eq)]
pub struct MyError {
    err_kind: String,
    custom_msg: String,
    err: Failure,
}

/// The record of a wrapper node: the kind's name as label, the message as
/// value, and no trace.
pub open spec fn wrapper_record(kind: Seq<char>, message: Seq<char>) -> RecordView {
    RecordView { type_label: kind, value: Some(message), stacktrace: None }
}

/// The records of a wrapped chain: the wrapper's record, then the records
/// of the cause's chain.
pub open spec fn wrapped_records(
    kind: Seq<char>,
    message: Seq<char>,
    cause: Seq<RecordView>,
) -> Seq<RecordView> {
    seq![wrapper_record(kind, message)] + cause
}

impl MyError {
    /// The name of the kind the error was classified with.
    pub closed spec fn kind(&self) -> Seq<char> {
        self.err_kind@
    }

    /// The message the error was made with.
    pub closed spec fn message(&self) -> Seq<char> {
        self.custom_msg@
    }

    /// The failure that the error classifies.
    pub closed spec fn source(&self) -> Failure {
        self.err
    }

    /// The records of the error's chain: its own record first, then those
    /// of its cause, down to the root cause.
    pub open spec fn records(&self) -> Seq<RecordView> {
        wrapped_records(self.kind(), self.message(), self.source().records())
    }

    /// Attaches a kind and a message to a failure.
    pub fn new(err_kind: ErrKind, msg: String, err: Failure) -> (wrapped: MyError)
        ensures
            wrapped.kind() == err_kind.label(),
            wrapped.message() == msg@,
            wrapped.source() == err,
    {
        MyError { err_kind: err_kind.name(), custom_msg: msg, err }
    }

    /// The name of the error: the name of its kind.
    pub fn name(&self) -> (name: Option<&str>)
        ensures
            name is Some,
            name->0@ == self.kind(),
    {
        Some(self.err_kind.as_str())
    }

    /// The cause of the error: the failure it classifies.
    pub fn cause(&self) -> (cause: Option<&Failure>)
        ensures
            cause is Some,
            *cause->0 == self.source(),
    {
        Some(&self.err)
    }

    /// The error's own trace: it has none.
    pub fn backtrace(&self) -> (trace: Option<&Vec<Frame>>)
        ensures
            trace is None,
    {
        None
    }

    /// The display form of the error: exactly its message. The display of
    /// the cause is not added.
    pub fn to_string(&self) -> (text: String)
        ensures
            text@ == self.message(),
    {
        self.custom_msg.clone()
    }

    /// The record of the error's own node.
    pub fn to_record(&self) -> (record: ExceptionRecord)
        ensures
            record@ == wrapper_record(self.kind(), self.message()),
    {
        ExceptionRecord {
            type_label: self.err_kind.clone(),
            value: Some(self.custom_msg.clone()),
            stacktrace: None,
        }
    }

    /// The error as a chain: a node with the kind's name as label, the
    /// message as display text and no trace, whose cause is the classified
    /// failure.
    pub fn into_failure(self) -> (chain: Failure)
        ensures
            chain.type_label@ == self.kind(),
            chain.display is Some,
            chain.display->0@ == self.message(),
            chain.backtrace is None,
            chain.cause == Some(Box::new(self.source())),
            chain.depth() == self.source().depth() + 1,
            chain.records() == self.records(),
    {
        let chain = Failure {
            type_label: self.err_kind,
            display: Some(self.custom_msg),
            backtrace: None,
            cause: Some(Box::new(self.err)),
        };
        assert(chain.records() =~= self.records());
        chain
    }
}

/// The records that both sinks are given: repeated traces are cleared on
/// the raw records, then every trace that remains is cut at its first entry
/// frame.
pub open spec fn prepared(raw: Seq<RecordView>, marker: Seq<char>) -> Seq<RecordView> {
    trimmed_records(deduplicated(raw), marker)
}

/// The report is the one that the records give under the marker and the
/// excluded fragments: its log text renders the prepared records in order,
/// and its event has severity `Error` and lists the same records reversed.
pub open spec fn is_report_of(
    report: Report,
    raw: Seq<RecordView>,
    marker: Seq<char>,
    excluded: Seq<Seq<char>>,
) -> bool {
    &&& report.log@ == log_text(prepared(raw, marker), excluded)
    &&& report.event.level == Level::Error
    &&& records_view(report.event.exception@) == prepared(raw, marker).reverse()
}

/// What one dispatch yields: the text for the log, and the event for the
/// remote backend.
#[derive(Debug, PartialEq, Eq)]
pub struct Report {
    pub log: String,
    pub event: RemoteEvent,
}

/// Preparing changes traces only. Every record keeps its place, its label
/// and its value. A record ends without a trace exactly if it had none or
/// its raw trace repeats the hash of an earlier one; otherwise it ends with
/// its own raw trace, trimmed. Which records are cleared is decided on the
/// raw traces alone: the marker has no part in it.
pub proof fn lemma_prepared_shape(raw: Seq<RecordView>, marker: Seq<char>)
    ensures
        prepared(raw, marker).len() == raw.len(),
        forall|i: int|
            0 <= i < raw.len() ==> {
                &&& (#[trigger] prepared(raw, marker)[i]).type_label == raw[i].type_label
                &&& prepared(raw, marker)[i].value == raw[i].value
                &&& prepared(raw, marker)[i].stacktrace == if is_repeat(raw, i) {
                    None
                } else {
                    trimmed_trace(raw[i].stacktrace, marker)
                }
            },
{
}

/// Of two records with the same raw trace, the later one is rendered
/// without frame lines: its text in the log is its head alone, whatever the
/// marker and the excluded fragments are.
pub proof fn lemma_repeated_trace_is_not_rendered(
    raw: Seq<RecordView>,
    marker: Seq<char>,
    excluded: Seq<Seq<char>>,
    i: int,
    j: int,
)
    requires
        0 <= i < j < raw.len(),
        raw[i].stacktrace is Some,
        raw[i].stacktrace == raw[j].stacktrace,
    ensures
        prepared(raw, marker)[j].stacktrace is None,
        record_text(prepared(raw, marker)[j], excluded) == record_head(raw[j]),
{
    lemma_repeated_trace_is_cleared(raw, i, j);
    lemma_prepared_shape(raw, marker);
}

/// Two dispatches of chains with the same content, under the same kind,
/// message and configuration, give the same report: the log texts are
/// equal, character for character, and so are the events. Nothing of one
/// run is left to change the next.
pub proof fn lemma_report_is_repeatable(
    first: Report,
    second: Report,
    kind: ErrKind,
    message: Seq<char>,
    first_cause: Failure,
    second_cause: Failure,
    marker: Seq<char>,
    excluded: Seq<Seq<char>>,
)
    requires
        first_cause.records() == second_cause.records(),
        is_report_of(
            first,
            wrapped_records(kind.label(), message, first_cause.records()),
            marker,
            excluded,
        ),
        is_report_of(
            second,
            wrapped_records(kind.label(), message, second_cause.records()),
            marker,
            excluded,
        ),
    ensures
        first.log@ == second.log@,
        first.event.level == second.event.level,
        records_view(first.event.exception@) == records_view(second.event.exception@),
{
}

/// The exception list of a report's event is the exact reverse of the
/// record order of its log text.
pub proof fn lemma_report_orders(
    report: Report,
    raw: Seq<RecordView>,
    marker: Seq<char>,
    excluded: Seq<Seq<char>>,
)
    requires
        is_report_of(report, raw, marker, excluded),
    ensures
        report.log@ == log_text(records_view(report.event.exception@).reverse(), excluded),
        records_view(report.event.exception@).len() == raw.len(),
        forall|i: int|
            0 <= i < raw.len() ==> #[trigger] records_view(report.event.exception@)[i] == prepared(
                raw,
                marker,
            )[raw.len() - 1 - i],
{
    let shown = prepared(raw, marker);
    assert(shown.reverse().reverse() =~= shown);
}

/// Clears repeated traces, then trims the traces that remain.
pub fn prepare(records: Vec<ExceptionRecord>, marker: &str) -> (shown: Vec<ExceptionRecord>)
    ensures
        records_view(shown@) == prepared(records_view(records@), marker@),
        shown@.len() == records@.len(),
{
    let kept = deduplicate(records);
    trim_records(kept, marker)
}

/// The prepared records of a classified error, wrapper first: one record
/// per node of its chain, repeated traces cleared, remaining traces trimmed.
pub fn build_exceptions(err: &MyError, config: &FilterConfig) -> (records: Vec<ExceptionRecord>)
    ensures
        records_view(records@) == prepared(err.records(), config.marker()),
        records@.len() == err.source().depth() + 1,
{
    let mut raw: Vec<ExceptionRecord> = Vec::new();
    raw.push(err.to_record());
    let mut tail = flatten(&err.err);
    let ghost head = raw@;
    let ghost rest = tail@;
    raw.append(&mut tail);
    proof {
        lemma_flatten_one_record_per_node(err.err);
        assert(raw@ =~= head + rest);
        assert(records_view(raw@) =~= err.records());
    }
    prepare(raw, config.entry_marker.as_str())
}

/// The log text of a classified error: its prepared records rendered
/// wrapper first.
pub fn capture_error_to_log(err: &MyError, config: &FilterConfig) -> (text: String)
    ensures
        text@ == log_text(prepared(err.records(), config.marker()), config.excluded()),
{
    let records = build_exceptions(err, config);
    render_log(&records, &config.excluded_paths)
}

/// The remote event of a classified error: severity `Error`, and its
/// prepared records root cause first.
pub fn capture_error_to_sentry(err: &MyError, config: &FilterConfig) -> (event: RemoteEvent)
    ensures
        event.level == Level::Error,
        records_view(event.exception@) == prepared(err.records(), config.marker()).reverse(),
{
    let records = build_exceptions(err, config);
    remote_event(records)
}

/// Both reports of a classified error, from one flattening of its chain.
pub fn report(err: &MyError, config: &FilterConfig) -> (report: Report)
    ensures
        is_report_of(report, err.records(), config.marker(), config.excluded()),
{
    let records = build_exceptions(err, config);
    let log = render_log(&records, &config.excluded_paths);
    let event = remote_event(records);
    Report { log, event }
}

/// Dispatches a result. A success yields nothing. A failure is classified
/// with `kind` and `message`, which makes it the cause of a new outermost
/// node, and yields the report of that chain. The failure is consumed: it
/// is not handed back.
pub fn report_failure<T>(
    result: Result<T, Failure>,
    kind: ErrKind,
    message: &str,
    config: &FilterConfig,
) -> (outcome: Option<Report>)
    ensures
        result is Ok ==> outcome is None,
        result is Err ==> outcome is Some && is_report_of(
            outcome->0,
            wrapped_records(kind.label(), message@, result->Err_0.records()),
            config.marker(),
            config.excluded(),
        ),
{
    match result {
        Ok(_) => None,
        Err(cause) => {
            let wrapped = MyError::new(kind, String::from_str(message), cause);
            Some(report(&wrapped, config))
        },
    }
}

/// The record that an exception describes: its type as label, its value as
/// value, and its frames, where it has any, as trace.
fn record_of_exception(exception: sentry::protocol::Exception) -> (record: ExceptionRecord)
    ensures
        record@ == record_described(exception_content(exception)),
{
    let (type_label, value, parts) = exception_parts(exception);
    record_from_parts(type_label, value, parts)
}

/// Reads the chain of a `failure::Error` into a [`Failure`]: one node per
/// failure of the chain, outermost first, each with the type, the value and
/// the frames that the crash-reporting crate derives for it.
pub fn failure_from_error(err: &failure::Error) -> (chain: Failure)
    ensures
        chain.depth() == chain_depth(*err),
{
    let length = chain_length(err);
    let mut records: Vec<ExceptionRecord> = Vec::new();
    let mut index: usize = 0;
    while index < length
        invariant
            index <= length,
            length == chain_depth(*err),
            records@.len() == index,
        decreases length - index,
    {
        let exception = exception_at(err, index).unwrap();
        records.push(record_of_exception(exception));
        index = index + 1;
    }
    chain_from_records(records).unwrap()
}

/// Reports a failed result and drops a successful one.
pub trait LogErrorExt {
    /// `None` for a success; for a failure, the report of the failure
    /// classified with `err_kind` and `msg`.
    fn log_err(self, err_kind: ErrKind, msg: &str) -> Option<Report>;
}

impl<T> LogErrorExt for Result<T, failure::Error> {
    /// Dispatches under the standard configuration. The success value is
    /// dropped. An error's chain is read, classified, and reported: the
    /// report is that of a chain whose outermost record is the wrapper, with
    /// the kind's name as label, `msg` as value and no trace, followed by at
    /// least one record of the error itself.
    fn log_err(self, err_kind: ErrKind, msg: &str) -> (outcome: Option<Report>)
        ensures
            self is Ok <==> outcome is None,
            outcome is Some ==> exists|cause: Seq<RecordView>|
                cause.len() >= 1 && #[trigger] is_report_of(
                    outcome->0,
                    wrapped_records(err_kind.label(), msg@, cause),
                    FilterConfig::standard_marker(),
                    FilterConfig::standard_excluded(),
                ),
    {
        match drop_value(self) {
            Ok(()) => None,
            Err(err) => {
                let cause = failure_from_error(&err);
                let config = FilterConfig::standard();
                proof {
                    lemma_flatten_one_record_per_node(cause);
                }
                let outcome = report_failure::<()>(Err(cause), err_kind, msg, &config);
                assert(is_report_of(
                    outcome->0,
                    wrapped_records(err_kind.label(), msg@, cause.records()),
                    FilterConfig::standard_marker(),
                    FilterConfig::standard_excluded(),
                ));
                outcome
            },
        }
    }
}

impl<T> LogErrorExt for Result<T, Failure> {
    /// Dispatches under the standard configuration; see [`report_failure`].
    fn log_err(self, err_kind: ErrKind, msg: &str) -> (outcome: Option<Report>)
        ensures
            self is Ok ==> outcome is None,
            self is Err ==> outcome is Some && is_report_of(
                outcome->0,
                wrapped_records(err_kind.label(), msg@, self->Err_0.records()),
                FilterConfig::standard_marker(),
                FilterConfig::standard_excluded(),
            ),
    {
        let config = FilterConfig::standard();
        report_failure(self, err_kind, msg, &config)
    }
}

} // verus!
