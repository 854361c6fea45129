use rust_trace_demo::filter::{
    find_entry, frame_is_entry, is_excluded, trim, trim_records, FilterConfig,
};
use rust_trace_demo::record::{ExceptionRecord, Frame};

fn frame(path: &str, function: Option<&str>) -> Frame {
    Frame {
        absolute_path: path.to_string(),
        function_name: function.map(|f| f.to_string()),
        line: Some(1),
        column: None,
    }
}

fn sample_trace() -> Vec<Frame> {
    vec![
        frame("/rt/start.rs", Some("std::rt::lang_start")),
        frame("/rt/unknown", None),
        frame("/app/src/main.rs", Some("app::main")),
        frame("/deps/lib.rs", Some("other::call")),
        frame("/app/src/work.rs", Some("app::work")),
    ]
}

#[test]
fn trim_cuts_at_the_first_entry_frame() {
    let kept = trim(sample_trace(), "app");
    let expected: Vec<Frame> = sample_trace().split_off(2);
    assert_eq!(kept, expected);
    assert_eq!(kept.len(), 3);
    assert_eq!(kept[0].function_name, Some("app::main".to_string()));
}

#[test]
fn trim_keeps_everything_without_an_entry_frame() {
    let kept = trim(sample_trace(), "nowhere");
    assert_eq!(kept, sample_trace());
}

#[test]
fn trim_with_entry_at_index_zero_keeps_everything() {
    let kept = trim(sample_trace(), "std::rt");
    assert_eq!(kept, sample_trace());
}

#[test]
fn trim_with_entry_at_the_last_index_keeps_one_frame() {
    let kept = trim(sample_trace(), "app::work");
    assert_eq!(kept, vec![frame("/app/src/work.rs", Some("app::work"))]);
}

#[test]
fn trim_of_an_empty_trace_is_empty() {
    assert_eq!(trim(Vec::new(), "app"), Vec::<Frame>::new());
}

#[test]
fn trim_ignores_frames_without_a_function_name() {
    let trace = vec![frame("/a", None), frame("/b", None)];
    assert_eq!(trim(trace.clone(), ""), trace);
}

#[test]
fn trim_with_the_empty_marker_cuts_at_the_first_named_frame() {
    let trace = vec![frame("/a", None), frame("/b", Some("f")), frame("/c", None)];
    assert_eq!(trim(trace, ""), vec![frame("/b", Some("f")), frame("/c", None)]);
}

#[test]
fn trim_matches_the_function_name_not_the_path() {
    let trace = vec![frame("/app/x.rs", Some("std::x")), frame("/std/y.rs", Some("app::y"))];
    assert_eq!(trim(trace, "app"), vec![frame("/std/y.rs", Some("app::y"))]);
}

#[test]
fn find_entry_gives_the_first_matching_index_or_zero() {
    assert_eq!(find_entry(&sample_trace(), "app"), 2);
    assert_eq!(find_entry(&sample_trace(), "other"), 3);
    assert_eq!(find_entry(&sample_trace(), "nowhere"), 0);
    assert_eq!(find_entry(&Vec::new(), "app"), 0);
}

#[test]
fn frame_is_entry_needs_a_name_with_the_marker_in_front() {
    assert!(frame_is_entry(&frame("/a", Some("app::main")), "app"));
    assert!(!frame_is_entry(&frame("/a", Some("my_app::main")), "app"));
    assert!(!frame_is_entry(&frame("app", None), "app"));
}

#[test]
fn trim_records_trims_each_trace_and_keeps_the_rest() {
    let records = vec![
        ExceptionRecord {
            type_label: "Outer".to_string(),
            value: Some("v".to_string()),
            stacktrace: Some(sample_trace()),
        },
        ExceptionRecord { type_label: "Bare".to_string(), value: None, stacktrace: None },
        ExceptionRecord {
            type_label: "Inner".to_string(),
            value: None,
            stacktrace: Some(vec![frame("/x", Some("std::x"))]),
        },
    ];
    let kept = trim_records(records, "app");
    assert_eq!(kept.len(), 3);
    assert_eq!(kept[0].type_label, "Outer");
    assert_eq!(kept[0].value, Some("v".to_string()));
    assert_eq!(kept[0].stacktrace, Some(sample_trace().split_off(2)));
    assert_eq!(
        kept[1],
        ExceptionRecord { type_label: "Bare".to_string(), value: None, stacktrace: None }
    );
    assert_eq!(kept[2].stacktrace, Some(vec![frame("/x", Some("std::x"))]));
}

#[test]
fn is_excluded_looks_for_any_fragment_in_the_path() {
    let excluded = vec!["failure-0.".to_string(), "libcore".to_string()];
    assert!(is_excluded("/reg/failure-0.1.8/src/error.rs", &excluded));
    assert!(is_excluded("/rustc/src/libcore/ops.rs", &excluded));
    assert!(!is_excluded("/app/src/main.rs", &excluded));
    assert!(!is_excluded("/app/src/main.rs", &Vec::new()));
}

#[test]
fn standard_configuration_holds_the_marker_and_the_fragments() {
    let config = FilterConfig::standard();
    assert_eq!(config.entry_marker, "rust_trace_demo");
    assert_eq!(
        config.excluded_paths,
        vec!["failure-0.", "libcore", "backtrace-", "src/errors.rs", "sugar-rs"]
    );
}
