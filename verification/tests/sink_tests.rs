use rust_trace_demo::record::{reverse_records, ExceptionRecord, Frame};
use rust_trace_demo::sink::{remote_event, render_log, Level, RemoteEvent};

fn frame(path: &str, function: Option<&str>, line: Option<u64>, column: Option<u64>) -> Frame {
    Frame {
        absolute_path: path.to_string(),
        function_name: function.map(|f| f.to_string()),
        line,
        column,
    }
}

fn record(label: &str, value: Option<&str>, trace: Option<Vec<Frame>>) -> ExceptionRecord {
    ExceptionRecord {
        type_label: label.to_string(),
        value: value.map(|v| v.to_string()),
        stacktrace: trace,
    }
}

fn no_exclusions() -> Vec<String> {
    Vec::new()
}

#[test]
fn a_record_without_a_trace_renders_as_label_and_value() {
    let text = render_log(&vec![record("AppFail", Some("oh no"), None)], &no_exclusions());
    assert_eq!(text, " -> AppFail oh no");
}

#[test]
fn a_record_without_value_and_trace_renders_as_its_label() {
    let text = render_log(&vec![record("AppFail", None, None)], &no_exclusions());
    assert_eq!(text, " -> AppFail");
}

#[test]
fn no_records_render_as_the_empty_text() {
    assert_eq!(render_log(&Vec::new(), &no_exclusions()), "");
}

#[test]
fn a_single_frame_renders_as_path_line_function_column() {
    let trace = vec![frame("/app/src/main.rs", Some("app::main"), Some(12), Some(5))];
    let text = render_log(&vec![record("Root", Some("xxx"), Some(trace))], &no_exclusions());
    assert_eq!(text, " -> Root xxx\n/app/src/main.rs:12 app::main 5|\n");
}

#[test]
fn every_frame_stands_on_its_own_line() {
    let trace = vec![
        frame("/a.rs", Some("a"), Some(1), Some(2)),
        frame("/b.rs", Some("b"), Some(30), Some(40)),
    ];
    let text = render_log(&vec![record("Root", None, Some(trace))], &no_exclusions());
    assert_eq!(text, " -> Root\n/a.rs:1 a 2|\n/b.rs:30 b 40|\n");
}

#[test]
fn missing_frame_data_renders_as_defaults() {
    let trace = vec![frame("", None, None, None)];
    let text = render_log(&vec![record("Root", None, Some(trace))], &no_exclusions());
    assert_eq!(text, " -> Root\n:0  0|\n");
}

#[test]
fn an_empty_trace_renders_as_the_closing_newline() {
    let text = render_log(&vec![record("Root", Some("v"), Some(Vec::new()))], &no_exclusions());
    assert_eq!(text, " -> Root v\n");
}

#[test]
fn excluded_paths_are_left_out_frame_by_frame() {
    let trace = vec![
        frame("/reg/failure-0.1.8/src/error.rs", Some("failure::new"), Some(1), None),
        frame("/app/src/main.rs", Some("app::main"), Some(2), None),
        frame("/rustc/libcore/ops.rs", Some("core::ops"), Some(3), None),
        frame("/app/src/work.rs", Some("app::work"), Some(4), None),
    ];
    let excluded = vec!["failure-0.".to_string(), "libcore".to_string()];
    let text = render_log(&vec![record("Root", None, Some(trace))], &excluded);
    assert_eq!(text, " -> Root\n/app/src/main.rs:2 app::main 0|\n/app/src/work.rs:4 app::work 0|\n");
}

#[test]
fn a_trace_with_every_frame_excluded_renders_as_the_closing_newline() {
    let trace = vec![frame("/x/libcore/a.rs", Some("a"), None, None)];
    let text = render_log(&vec![record("Root", None, Some(trace))], &vec!["libcore".to_string()]);
    assert_eq!(text, " -> Root\n");
}

#[test]
fn records_follow_each_other_without_a_separator() {
    let records = vec![
        record("Outer", Some("o"), Some(vec![frame("/a.rs", Some("a"), Some(1), Some(1))])),
        record("Middle", None, None),
        record("Root", Some("r"), None),
    ];
    let text = render_log(&records, &no_exclusions());
    assert_eq!(text, " -> Outer o\n/a.rs:1 a 1|\n -> Middle -> Root r");
}

#[test]
fn remote_event_lists_the_records_root_first() {
    let records = vec![record("Outer", Some("o"), None), record("Middle", None, None), record("Root", Some("r"), None)];
    let event = remote_event(records);
    assert_eq!(
        event,
        RemoteEvent {
            level: Level::Error,
            exception: vec![
                record("Root", Some("r"), None),
                record("Middle", None, None),
                record("Outer", Some("o"), None),
            ],
        }
    );
}

#[test]
fn remote_event_keeps_each_record_as_it_is() {
    let trace = vec![frame("/a.rs", Some("a"), Some(1), Some(1))];
    let event = remote_event(vec![record("Outer", None, Some(trace.clone())), record("Root", None, None)]);
    assert_eq!(event.level, Level::Error);
    assert_eq!(event.exception[1], record("Outer", None, Some(trace)));
    assert_eq!(event.exception[0], record("Root", None, None));
}

#[test]
fn remote_event_of_nothing_has_no_exceptions() {
    let event = remote_event(Vec::new());
    assert_eq!(event.level, Level::Error);
    assert_eq!(event.exception, Vec::<ExceptionRecord>::new());
}

#[test]
fn reverse_records_reverses_and_reversing_twice_restores() {
    let records = vec![record("A", None, None), record("B", None, None), record("C", None, None)];
    let reversed = reverse_records(records.clone());
    assert_eq!(reversed, vec![record("C", None, None), record("B", None, None), record("A", None, None)]);
    assert_eq!(reverse_records(reversed), records);
}
