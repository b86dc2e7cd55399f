use tracer_core::unhandled_exception::{
    non_empty, parse_location, parse_v8_stack, report_uncaught_exception, report_unhandled,
    report_unhandled_rejection, StackFrame, StackTrace, Thrown,
};

#[test]
fn test_parse_v8_stack_typical_error() {
    let stack = "\
TypeError: Cannot read properties of undefined (reading 'foo')
    at Object.method (/app/src/index.js:10:15)
    at Module._compile (node:internal/modules/cjs/loader:1234:14)
    at /app/src/helper.js:5:3";

    let trace = parse_v8_stack(stack);
    assert_eq!(trace.frames.len(), 3);
    assert!(!trace.incomplete);

    assert_eq!(trace.frames[0].function.as_deref(), Some("Object.method"));
    assert_eq!(trace.frames[0].file.as_deref(), Some("/app/src/index.js"));
    assert_eq!(trace.frames[0].line, Some(10));
    assert_eq!(trace.frames[0].column, Some(15));

    assert_eq!(trace.frames[1].function.as_deref(), Some("Module._compile"));
    assert_eq!(
        trace.frames[1].file.as_deref(),
        Some("node:internal/modules/cjs/loader")
    );
    assert_eq!(trace.frames[1].line, Some(1234));
    assert_eq!(trace.frames[1].column, Some(14));

    assert_eq!(trace.frames[2].function, None);
    assert_eq!(trace.frames[2].file.as_deref(), Some("/app/src/helper.js"));
    assert_eq!(trace.frames[2].line, Some(5));
    assert_eq!(trace.frames[2].column, Some(3));
}

#[test]
fn test_parse_v8_stack_anonymous_and_native() {
    let stack = "\
Error: boom
    at <anonymous>:1:1
    at native";

    let trace = parse_v8_stack(stack);
    assert_eq!(trace.frames.len(), 2);

    assert_eq!(trace.frames[0].file.as_deref(), Some("<anonymous>"));
    assert_eq!(trace.frames[0].line, Some(1));
    assert_eq!(trace.frames[0].column, Some(1));

    assert_eq!(trace.frames[1].file.as_deref(), Some("native"));
    assert_eq!(trace.frames[1].line, None);
}

#[test]
fn test_parse_v8_stack_empty() {
    let stack = "Error: something";
    let trace = parse_v8_stack(stack);
    assert_eq!(trace.frames.len(), 0);
    assert!(!trace.incomplete);
}

#[test]
fn test_parse_location_file_line_col() {
    let mut frame = StackFrame::new();
    parse_location("/app/index.js:42:7", &mut frame);
    assert_eq!(frame.file.as_deref(), Some("/app/index.js"));
    assert_eq!(frame.line, Some(42));
    assert_eq!(frame.column, Some(7));
}

#[test]
fn test_parse_location_node_internal() {
    let mut frame = StackFrame::new();
    parse_location("node:internal/modules/cjs/loader:1234:14", &mut frame);
    assert_eq!(
        frame.file.as_deref(),
        Some("node:internal/modules/cjs/loader")
    );
    assert_eq!(frame.line, Some(1234));
    assert_eq!(frame.column, Some(14));
}

#[test]
fn test_parse_location_no_column() {
    let mut frame = StackFrame::new();
    parse_location("/app/index.js:42", &mut frame);
    assert_eq!(frame.file.as_deref(), Some("/app/index.js"));
    assert_eq!(frame.line, Some(42));
    assert_eq!(frame.column, None);
}

#[test]
fn test_parse_location_bare_path() {
    let mut frame = StackFrame::new();
    parse_location("native", &mut frame);
    assert_eq!(frame.file.as_deref(), Some("native"));
    assert_eq!(frame.line, None);
    assert_eq!(frame.column, None);
}

fn located(location: &str) -> StackFrame {
    let mut frame = StackFrame::new();
    parse_location(location, &mut frame);
    frame
}

fn frame(function: Option<&str>, file: &str, line: Option<u32>, column: Option<u32>) -> StackFrame {
    StackFrame {
        function: function.map(str::to_string),
        file: Some(file.to_string()),
        line,
        column,
    }
}

#[test]
fn a_location_is_cut_at_its_last_two_colons() {
    assert_eq!(located("a:b:c:1:2"), frame(None, "a:b:c", Some(1), Some(2)));
    assert_eq!(located("C:\\app\\x.js:3:4"), frame(None, "C:\\app\\x.js", Some(3), Some(4)));
    assert_eq!(located("::"), frame(None, "", None, None));
    assert_eq!(located(":7"), frame(None, "", Some(7), None));
    assert_eq!(located(""), frame(None, "", None, None));
}

#[test]
fn a_line_or_a_column_that_is_no_number_is_left_out() {
    assert_eq!(located("file.js:x:7"), frame(None, "file.js", None, Some(7)));
    assert_eq!(located("file.js:7:x"), frame(None, "file.js", Some(7), None));
    assert_eq!(located("file.js:x:y"), frame(None, "file.js", None, None));
    assert_eq!(located("file.js:7:"), frame(None, "file.js", Some(7), None));
    // with one colon only, a part that is no number belongs to the file
    assert_eq!(located("node:fs"), frame(None, "node:fs", None, None));
    assert_eq!(located("file.js:"), frame(None, "file.js:", None, None));
}

#[test]
fn numbers_are_decimal_and_fit_in_32_bits() {
    assert_eq!(located("f:0:4294967295"), frame(None, "f", Some(0), Some(u32::MAX)));
    assert_eq!(located("f:1:4294967296"), frame(None, "f", Some(1), None));
    assert_eq!(located("f:1:99999999999999999999999"), frame(None, "f", Some(1), None));
    assert_eq!(located("f:+5:007"), frame(None, "f", Some(5), Some(7)));
    assert_eq!(located("f:-5:+"), frame(None, "f", None, None));
    assert_eq!(located("f:1 :2"), frame(None, "f", None, Some(2)));
    assert_eq!(located("f:0x10:1e3"), frame(None, "f", None, None));
    assert_eq!(located("f:\u{661}:2"), frame(None, "f", None, Some(2)));
    assert_eq!(located("f:+4294967295"), frame(None, "f", Some(u32::MAX), None));
    assert_eq!(located("f:4294967296"), frame(None, "f:4294967296", None, None));
}

#[test]
fn parse_location_keeps_what_it_does_not_set() {
    let mut given = StackFrame {
        function: Some("fn".to_string()),
        file: Some("old".to_string()),
        line: Some(1),
        column: Some(2),
    };
    parse_location("native", &mut given);
    assert_eq!(given, frame(Some("fn"), "native", Some(1), Some(2)));
    parse_location("x.js:9", &mut given);
    assert_eq!(given, frame(Some("fn"), "x.js", Some(9), Some(2)));
    parse_location("x.js:a:b", &mut given);
    assert_eq!(given, frame(Some("fn"), "x.js", None, None));
}

#[test]
fn lines_that_are_no_frames_are_passed_over() {
    let stack = "Error: x\n\n  at a (f.js:1:2)\r\nnot a frame\n\tat b (g.js:3:4)  \n at\nat \n    at c.js:5\n";
    let trace = parse_v8_stack(stack);
    assert_eq!(
        trace.frames,
        vec![
            frame(Some("a"), "f.js", Some(1), Some(2)),
            frame(Some("b"), "g.js", Some(3), Some(4)),
            frame(None, "c.js", Some(5), None),
        ]
    );
    assert!(!trace.incomplete);
}

#[test]
fn the_first_line_is_never_a_frame() {
    assert_eq!(parse_v8_stack("    at a (f.js:1:2)").frames, vec![]);
    assert_eq!(parse_v8_stack("").frames, vec![]);
    assert_eq!(parse_v8_stack("\n").frames, vec![]);
    assert_eq!(
        parse_v8_stack("at a (f.js:1:2)\nat b (g.js:3:4)").frames,
        vec![frame(Some("b"), "g.js", Some(3), Some(4))]
    );
}

#[test]
fn the_function_ends_at_the_last_opening_bracket() {
    let trace = parse_v8_stack("E\n at new Foo (bar) (/x (1).js:1:2))\n at  spaced out  (f.js)\n at (f.js:1)\n at f (");
    assert_eq!(
        trace.frames,
        vec![
            StackFrame {
                function: Some("new Foo (bar) (/x".to_string()),
                file: Some("1).js".to_string()),
                line: Some(1),
                column: Some(2),
            },
            frame(Some("spaced out"), "f.js", None, None),
            frame(None, "f.js", Some(1), None),
            frame(Some("f"), "", None, None),
        ]
    );
}

#[test]
fn white_space_of_any_script_is_trimmed() {
    let trace = parse_v8_stack("E\n\u{a0}\u{2003}at\u{20}f\u{3000} (a.js:1:1)\u{2028}");
    assert_eq!(trace.frames, vec![frame(Some("f"), "a.js", Some(1), Some(1))]);
    // only a plain space ends the prefix
    assert_eq!(parse_v8_stack("E\nat\u{a0}f (a.js:1:1)").frames, vec![]);
    assert_eq!(parse_v8_stack("E\nAt f (a.js:1:1)").frames, vec![]);
}

#[test]
fn an_empty_property_counts_as_absent() {
    assert_eq!(non_empty(String::new()), None);
    assert_eq!(non_empty(" ".to_string()), Some(" ".to_string()));
    assert_eq!(non_empty("TypeError".to_string()), Some("TypeError".to_string()));
}

#[test]
fn an_error_is_reported_with_its_own_name_and_stack() {
    let report = report_unhandled(
        Thrown::Error {
            name: Some("TypeError".to_string()),
            message: Some("boom".to_string()),
            stack: Some("TypeError: boom\n    at f (a.js:1:2)".to_string()),
        },
        "uncaughtException",
    );
    assert_eq!(report.exception_type.as_deref(), Some("TypeError"));
    assert_eq!(report.message.as_deref(), Some("boom"));
    assert_eq!(
        report.stacktrace,
        StackTrace { frames: vec![frame(Some("f"), "a.js", Some(1), Some(2))], incomplete: false }
    );
}

#[test]
fn an_error_without_a_stack_has_an_incomplete_stack() {
    let report = report_unhandled_rejection(Thrown::Error { name: None, message: None, stack: None });
    assert_eq!(report.exception_type, None);
    assert_eq!(report.message, None);
    assert_eq!(report.stacktrace, StackTrace { frames: vec![], incomplete: true });
    assert_eq!(StackTrace::new_incomplete(), StackTrace { frames: vec![], incomplete: true });
}

#[test]
fn another_value_is_reported_under_the_fallback_type() {
    let report = report_uncaught_exception(Thrown::Other { text: Some("42".to_string()) });
    assert_eq!(report.exception_type.as_deref(), Some("uncaughtException"));
    assert_eq!(report.message.as_deref(), Some("42"));
    assert_eq!(report.stacktrace, StackTrace { frames: vec![], incomplete: true });
    let report = report_unhandled_rejection(Thrown::Other { text: None });
    assert_eq!(report.exception_type.as_deref(), Some("unhandledRejection"));
    assert_eq!(report.message, None);
    assert!(report.stacktrace.incomplete);
    let report = report_unhandled(Thrown::Other { text: None }, "other");
    assert_eq!(report.exception_type.as_deref(), Some("other"));
}

#[test]
fn from_frames_keeps_frames_and_flag() {
    let frames = vec![frame(None, "a", None, None)];
    let trace = StackTrace::from_frames(frames.clone(), true);
    assert_eq!(trace.frames, frames);
    assert!(trace.incomplete);
}
