use rust_trace_demo::dedup::{calculate_hash, deduplicate, trace_fingerprint};
use rust_trace_demo::key::raw_trace_text;
use rust_trace_demo::record::{ExceptionRecord, Frame};

fn frame(path: &str, function: Option<&str>, line: Option<u64>, column: Option<u64>) -> Frame {
    Frame {
        absolute_path: path.to_string(),
        function_name: function.map(|f| f.to_string()),
        line,
        column,
    }
}

fn record(label: &str, trace: Option<Vec<Frame>>) -> ExceptionRecord {
    ExceptionRecord { type_label: label.to_string(), value: Some(format!("v-{}", label)), stacktrace: trace }
}

fn trace_a() -> Vec<Frame> {
    vec![
        frame("/app/main.rs", Some("app::main"), Some(3), Some(7)),
        frame("/app/work.rs", Some("app::work"), Some(9), None),
    ]
}

fn trace_b() -> Vec<Frame> {
    vec![
        frame("/app/main.rs", Some("app::main"), Some(3), Some(7)),
        frame("/app/work.rs", Some("app::work"), Some(10), None),
    ]
}

#[test]
fn identical_traces_keep_only_the_earlier_one() {
    let kept = deduplicate(vec![record("Outer", Some(trace_a())), record("Inner", Some(trace_a()))]);
    assert_eq!(kept, vec![record("Outer", Some(trace_a())), record("Inner", None)]);
}

#[test]
fn traces_that_differ_by_one_frame_are_both_kept() {
    let input = vec![record("Outer", Some(trace_a())), record("Inner", Some(trace_b()))];
    assert_eq!(deduplicate(input.clone()), input);
}

#[test]
fn traces_that_differ_only_in_length_are_both_kept() {
    let mut longer = trace_a();
    longer.push(frame("/app/deep.rs", None, None, None));
    let input = vec![record("Outer", Some(trace_a())), record("Inner", Some(longer))];
    assert_eq!(deduplicate(input.clone()), input);
}

#[test]
fn every_later_repeat_is_cleared() {
    let kept = deduplicate(vec![
        record("A", Some(trace_a())),
        record("B", Some(trace_b())),
        record("C", Some(trace_a())),
        record("D", Some(trace_b())),
        record("E", Some(trace_a())),
    ]);
    assert_eq!(
        kept,
        vec![
            record("A", Some(trace_a())),
            record("B", Some(trace_b())),
            record("C", None),
            record("D", None),
            record("E", None),
        ]
    );
}

#[test]
fn records_without_a_trace_are_skipped() {
    let input = vec![record("A", None), record("B", None), record("C", Some(trace_a())), record("D", None)];
    assert_eq!(deduplicate(input.clone()), input);
}

#[test]
fn an_empty_trace_counts_as_a_trace() {
    let kept = deduplicate(vec![record("A", Some(Vec::new())), record("B", None), record("C", Some(Vec::new()))]);
    assert_eq!(kept, vec![record("A", Some(Vec::new())), record("B", None), record("C", None)]);
}

#[test]
fn a_missing_field_and_an_empty_field_make_traces_differ() {
    let with_none = vec![frame("/a", None, None, None)];
    let with_empty = vec![frame("/a", Some(""), None, None)];
    let with_zero = vec![frame("/a", None, Some(0), None)];
    let input = vec![
        record("A", Some(with_none)),
        record("B", Some(with_empty)),
        record("C", Some(with_zero)),
    ];
    assert_eq!(deduplicate(input.clone()), input);
}

#[test]
fn deduplicate_of_nothing_is_nothing() {
    assert_eq!(deduplicate(Vec::new()), Vec::<ExceptionRecord>::new());
}

#[test]
fn deduplicate_keeps_no_state_between_calls() {
    let first = deduplicate(vec![record("A", Some(trace_a()))]);
    let second = deduplicate(vec![record("A", Some(trace_a()))]);
    assert_eq!(first, vec![record("A", Some(trace_a()))]);
    assert_eq!(second, first);
}

#[test]
fn deduplicate_twice_changes_nothing_more() {
    let once = deduplicate(vec![
        record("A", Some(trace_a())),
        record("B", Some(trace_a())),
        record("C", Some(trace_b())),
    ]);
    assert_eq!(deduplicate(once.clone()), once);
}

#[test]
fn raw_trace_text_writes_sized_texts_and_marked_numbers() {
    assert_eq!(
        raw_trace_text(&trace_a()),
        "12:/app/main.rs+9:app::main+3;+7;12:/app/work.rs+9:app::work+9;-"
    );
    assert_eq!(raw_trace_text(&vec![frame("", None, None, None)]), "0:---");
    assert_eq!(raw_trace_text(&vec![frame("/a", Some(""), Some(0), Some(10))]), "2:/a+0:+0;+10;");
    assert_eq!(raw_trace_text(&Vec::new()), "");
}

#[test]
fn raw_trace_text_counts_characters_not_bytes() {
    assert_eq!(raw_trace_text(&vec![frame("pä", None, None, None)]), "2:pä---");
}

#[test]
fn raw_trace_text_tells_apart_what_looks_alike() {
    let one = vec![frame("1:a", None, None, None)];
    let other = vec![frame("", Some("a"), None, None)];
    assert_ne!(raw_trace_text(&one), raw_trace_text(&other));
    let split = vec![frame("a", None, None, None), frame("b", None, None, None)];
    let whole = vec![frame("a---1:b", None, None, None)];
    assert_ne!(raw_trace_text(&split), raw_trace_text(&whole));
}

#[test]
fn calculate_hash_is_a_function_of_the_text() {
    assert_eq!(calculate_hash("trace"), calculate_hash("trace"));
    assert_eq!(calculate_hash(""), calculate_hash(""));
    assert_ne!(calculate_hash("trace"), calculate_hash("trace "));
    assert_ne!(calculate_hash("a"), calculate_hash("b"));
}

#[test]
fn trace_fingerprint_is_the_hash_of_the_raw_text() {
    assert_eq!(trace_fingerprint(&trace_a()), calculate_hash(&raw_trace_text(&trace_a())));
    assert_eq!(trace_fingerprint(&trace_a()), trace_fingerprint(&trace_a()));
    assert_ne!(trace_fingerprint(&trace_a()), trace_fingerprint(&trace_b()));
}
