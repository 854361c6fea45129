use rust_trace_demo::chain::{flatten, Failure};
use rust_trace_demo::errors::{
    build_exceptions, capture_error_to_log, capture_error_to_sentry, failure_from_error, prepare,
    report, report_failure, ErrKind, LogErrorExt, MyError, Report,
};
use rust_trace_demo::filter::FilterConfig;
use rust_trace_demo::my_function;
use failure::Fail;
use rust_trace_demo::record::{frames_from_parts, record_from_parts, ExceptionRecord, Frame};
use rust_trace_demo::sink::{remote_event, render_log, Level};

fn frame(path: &str, function: &str, line: u64, column: u64) -> Frame {
    Frame {
        absolute_path: path.to_string(),
        function_name: Some(function.to_string()),
        line: Some(line),
        column: Some(column),
    }
}

fn record(label: &str, value: &str, trace: Option<Vec<Frame>>) -> ExceptionRecord {
    ExceptionRecord { type_label: label.to_string(), value: Some(value.to_string()), stacktrace: trace }
}

fn config() -> FilterConfig {
    FilterConfig { entry_marker: "app".to_string(), excluded_paths: vec!["/deps/".to_string()] }
}

fn shared_trace() -> Vec<Frame> {
    vec![frame("/app/src/main.rs", "app::main", 3, 7)]
}

fn full_trace() -> Vec<Frame> {
    vec![
        frame("/rt/start.rs", "std::rt::lang_start", 1, 1),
        frame("/app/src/main.rs", "app::main", 3, 7),
        frame("/deps/helper.rs", "helper::call", 8, 2),
        frame("/app/src/work.rs", "app::work", 9, 4),
    ]
}

fn two_node_chain() -> Failure {
    let root = Failure {
        type_label: "root".to_string(),
        display: Some("xxx".to_string()),
        backtrace: Some(shared_trace()),
        cause: None,
    };
    Failure::wrapping("wrapper".to_string(), Some("oh no".to_string()), Some(shared_trace()), root)
}

#[test]
fn end_to_end_with_identical_traces() {
    let records = prepare(flatten(&two_node_chain()), "app");
    assert_eq!(
        records,
        vec![record("wrapper", "oh no", Some(shared_trace())), record("root", "xxx", None)]
    );
    let log = render_log(&records, &Vec::new());
    assert_eq!(log, " -> wrapper oh no\n/app/src/main.rs:3 app::main 7|\n -> root xxx");
    let event = remote_event(records);
    assert_eq!(event.level, Level::Error);
    assert_eq!(
        event.exception,
        vec![record("root", "xxx", None), record("wrapper", "oh no", Some(shared_trace()))]
    );
}

#[test]
fn hashing_uses_the_raw_trace_not_the_trimmed_one() {
    let mut longer = vec![frame("/rt/start.rs", "std::rt::lang_start", 1, 1)];
    longer.extend(shared_trace());
    let records = vec![record("A", "a", Some(longer)), record("B", "b", Some(shared_trace()))];
    let shown = prepare(records, "app");
    assert_eq!(
        shown,
        vec![record("A", "a", Some(shared_trace())), record("B", "b", Some(shared_trace()))]
    );
}

#[test]
fn prepare_clears_repeats_and_trims_what_remains() {
    let records = vec![
        record("A", "a", Some(full_trace())),
        record("B", "b", None),
        record("C", "c", Some(full_trace())),
    ];
    let shown = prepare(records, "app");
    assert_eq!(
        shown,
        vec![
            record("A", "a", Some(full_trace().split_off(1))),
            record("B", "b", None),
            record("C", "c", None),
        ]
    );
}

#[test]
fn report_failure_of_a_success_is_nothing() {
    let result: Result<u32, Failure> = Ok(5);
    assert_eq!(report_failure(result, ErrKind::AppFail, "unused", &config()), None);
}

#[test]
fn report_failure_wraps_and_reports_both_ways() {
    let root = Failure {
        type_label: "Root".to_string(),
        display: Some("xxx".to_string()),
        backtrace: Some(full_trace()),
        cause: None,
    };
    let middle = Failure::wrapping("Middle".to_string(), None, Some(full_trace()), root);
    let result: Result<(), Failure> = Err(middle);
    let report = report_failure(result, ErrKind::AppFail, "oh my god app fail", &config()).unwrap();
    assert_eq!(
        report.log,
        " -> AppFail oh my god app fail -> Middle\n/app/src/main.rs:3 app::main 7|\n/app/src/work.rs:9 app::work 4|\n -> Root xxx"
    );
    assert_eq!(report.event.level, Level::Error);
    assert_eq!(
        report.event.exception,
        vec![
            record("Root", "xxx", None),
            ExceptionRecord {
                type_label: "Middle".to_string(),
                value: None,
                stacktrace: Some(full_trace().split_off(1)),
            },
            record("AppFail", "oh my god app fail", None),
        ]
    );
}

#[test]
fn the_kind_labels_the_report_and_changes_nothing_else() {
    let app: Result<(), Failure> = Err(Failure::root("Root".to_string(), None));
    let other: Result<(), Failure> = Err(Failure::root("Root".to_string(), None));
    let first = report_failure(app, ErrKind::AppFail, "m", &config()).unwrap();
    let second = report_failure(other, ErrKind::OtherFail, "m", &config()).unwrap();
    assert_eq!(first.log, " -> AppFail m -> Root");
    assert_eq!(second.log, " -> OtherFail m -> Root");
    assert_eq!(first.event.exception[0], second.event.exception[0]);
}

#[test]
fn remote_order_is_the_reverse_of_log_order() {
    let wrapped = MyError::new(ErrKind::AppFail, "m".to_string(), two_node_chain());
    let shown = build_exceptions(&wrapped, &config());
    let event = capture_error_to_sentry(&wrapped, &config());
    let mut reversed = event.exception.clone();
    reversed.reverse();
    assert_eq!(reversed, shown);
    assert_eq!(capture_error_to_log(&wrapped, &config()), render_log(&shown, &config().excluded_paths));
}

#[test]
fn build_exceptions_gives_one_prepared_record_per_node() {
    let wrapped = MyError::new(ErrKind::AppFail, "m".to_string(), two_node_chain());
    let shown = build_exceptions(&wrapped, &config());
    assert_eq!(
        shown,
        vec![
            record("AppFail", "m", None),
            record("wrapper", "oh no", Some(shared_trace())),
            record("root", "xxx", None),
        ]
    );
}

#[test]
fn report_is_the_pair_of_both_sinks() {
    let wrapped = MyError::new(ErrKind::OtherFail, "m".to_string(), two_node_chain());
    let both = report(&wrapped, &config());
    assert_eq!(
        both,
        Report {
            log: capture_error_to_log(&wrapped, &config()),
            event: capture_error_to_sentry(&wrapped, &config()),
        }
    );
}

#[test]
fn two_runs_on_equal_input_give_equal_output() {
    let first: Result<(), Failure> = Err(two_node_chain());
    let second: Result<(), Failure> = Err(two_node_chain());
    let one = report_failure(first, ErrKind::AppFail, "again", &config()).unwrap();
    let two = report_failure(second, ErrKind::AppFail, "again", &config()).unwrap();
    assert_eq!(one.log, two.log);
    assert_eq!(one.log.as_bytes(), two.log.as_bytes());
    assert_eq!(one, two);
}

#[test]
fn log_err_on_a_chain_uses_the_standard_configuration() {
    let trace = vec![
        frame("/rustc/src/libcore/ops.rs", "core::ops::call", 1, 1),
        frame("/work/src/main.rs", "rust_trace_demo::main", 55, 5),
        frame("/reg/failure-0.1.8/src/error.rs", "failure::error::new", 7, 7),
    ];
    let root = Failure {
        type_label: "Root".to_string(),
        display: Some("xxx".to_string()),
        backtrace: Some(trace),
        cause: None,
    };
    let result: Result<(), Failure> = Err(root);
    let report = result.log_err(ErrKind::AppFail, "oh my god app fail").unwrap();
    assert_eq!(
        report.log,
        " -> AppFail oh my god app fail -> Root xxx\n/work/src/main.rs:55 rust_trace_demo::main 5|\n"
    );
    assert_eq!(report.event.exception.len(), 2);
    assert_eq!(report.event.exception[0].stacktrace.as_ref().map(|t| t.len()), Some(2));
}

#[test]
fn log_err_drops_a_success() {
    let chain_result: Result<u8, Failure> = Ok(1);
    assert_eq!(chain_result.log_err(ErrKind::AppFail, "m"), None);
    let error_result: Result<String, failure::Error> = Ok("fine".to_string());
    assert_eq!(error_result.log_err(ErrKind::OtherFail, "m"), None);
}

#[test]
fn log_err_reads_the_chain_of_an_error() {
    let result: Result<(), failure::Error> = Err(failure::err_msg("xxx"));
    let report = result.log_err(ErrKind::AppFail, "oh my god app fail").unwrap();
    assert!(report.log.starts_with(" -> AppFail oh my god app fail -> ErrorMessage xxx"));
    assert_eq!(report.event.level, Level::Error);
    assert_eq!(report.event.exception.len(), 2);
    assert_eq!(report.event.exception[0].type_label, "ErrorMessage");
    assert_eq!(report.event.exception[0].value, Some("xxx".to_string()));
    assert_eq!(report.event.exception[1], record("AppFail", "oh my god app fail", None));
}

#[test]
fn failure_from_error_has_one_node_per_failure_outermost_first() {
    let error: failure::Error = failure::err_msg("root cause").context("while working").into();
    let chain = failure_from_error(&error);
    let records = flatten(&chain);
    assert_eq!(records.len(), 2);
    assert_eq!(records[0].value, Some("while working".to_string()));
    assert_eq!(records[1].type_label, "ErrorMessage");
    assert_eq!(records[1].value, Some("root cause".to_string()));
    assert_eq!(chain.cause.unwrap().cause, None);
}

#[test]
fn failure_from_error_of_a_single_failure_has_one_node() {
    let error = failure::err_msg("alone");
    let chain = failure_from_error(&error);
    assert_eq!(flatten(&chain).len(), 1);
    assert_eq!(chain.type_label, "ErrorMessage");
    assert_eq!(chain.display, Some("alone".to_string()));
    assert_eq!(chain.cause, None);
}

#[test]
fn failure_from_error_follows_every_cause() {
    let error: failure::Error =
        failure::err_msg("root cause").context("in the middle").context("on top").into();
    let records = flatten(&failure_from_error(&error));
    let values: Vec<Option<String>> = records.into_iter().map(|r| r.value).collect();
    assert_eq!(
        values,
        vec![
            Some("on top".to_string()),
            Some("in the middle".to_string()),
            Some("root cause".to_string()),
        ]
    );
}

#[test]
fn record_from_parts_builds_the_described_record() {
    let with_trace = record_from_parts(
        "ErrorMessage".to_string(),
        Some("xxx".to_string()),
        Some(vec![
            (Some("/a.rs".to_string()), Some("a".to_string()), Some(1), Some(2)),
            (None, None, Some(3), None),
        ]),
    );
    assert_eq!(
        with_trace,
        ExceptionRecord {
            type_label: "ErrorMessage".to_string(),
            value: Some("xxx".to_string()),
            stacktrace: Some(vec![
                frame("/a.rs", "a", 1, 2),
                Frame { absolute_path: String::new(), function_name: None, line: Some(3), column: None },
            ]),
        }
    );
    let bare = record_from_parts("Bare".to_string(), None, None);
    assert_eq!(
        bare,
        ExceptionRecord { type_label: "Bare".to_string(), value: None, stacktrace: None }
    );
    let empty = record_from_parts("Empty".to_string(), None, Some(Vec::new()));
    assert_eq!(empty.stacktrace, Some(Vec::new()));
}

#[test]
fn frames_from_parts_defaults_a_missing_path() {
    let frames = frames_from_parts(vec![
        (Some("/a.rs".to_string()), Some("a".to_string()), Some(1), Some(2)),
        (None, None, None, None),
    ]);
    assert_eq!(
        frames,
        vec![
            frame("/a.rs", "a", 1, 2),
            Frame { absolute_path: String::new(), function_name: None, line: None, column: None },
        ]
    );
}

#[test]
fn my_function_hands_back_the_failure_of_the_opened_step() {
    let outcome = my_function(1, Err(failure::err_msg("cannot open")));
    assert_eq!(outcome.unwrap_err().to_string(), "cannot open");
    let outcome = my_function(0, Err(failure::err_msg("cannot open")));
    assert_eq!(outcome.unwrap_err().to_string(), "cannot open");
}

#[test]
fn my_function_fails_on_its_own_after_the_opened_step() {
    assert_eq!(my_function(1, Ok(())).unwrap_err().to_string(), "xxx");
    assert_eq!(my_function(0, Ok(())).unwrap_err().to_string(), "xxx");
}

#[test]
fn my_function_failure_is_reported_with_its_message() {
    let report = my_function(1, Ok(())).log_err(ErrKind::AppFail, "oh my god app fail").unwrap();
    assert!(report.log.starts_with(" -> AppFail oh my god app fail -> ErrorMessage xxx"));
}
