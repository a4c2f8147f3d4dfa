use php_mago::json::{JsonNumber, JsonValue};
use php_mago::report::{
    convert_issue_to_diagnostic, diagnostics_from_output, diagnostics_from_report, parse_mago_output, severity_for_level, Position, Range,
    Severity,
};

fn s(x: &str) -> JsonValue {
    JsonValue::String(x.to_string())
}

fn n(x: u64) -> JsonValue {
    JsonValue::Number(JsonNumber::PosInt(x))
}

fn obj(entries: Vec<(&str, JsonValue)>) -> JsonValue {
    JsonValue::Object(entries.into_iter().map(|(k, v)| (k.to_string(), v)).collect())
}

fn point(offset: JsonValue, line: JsonValue) -> JsonValue {
    obj(vec![("offset", offset), ("line", line)])
}

fn issue(level: &str, code: &str, message: &str, start: (u64, u64), end: (u64, u64)) -> JsonValue {
    obj(vec![
        ("level", s(level)),
        ("code", s(code)),
        ("message", s(message)),
        ("notes", JsonValue::Array(vec![s("note")])),
        ("help", s("help")),
        (
            "annotations",
            JsonValue::Array(vec![obj(vec![
                ("kind", s("Primary")),
                (
                    "span",
                    obj(vec![
                        ("start", point(n(start.0), n(start.1))),
                        ("end", point(n(end.0), n(end.1))),
                    ]),
                ),
            ])]),
        ),
    ])
}

#[test]
fn severity_mapping() {
    assert_eq!(severity_for_level("Error"), Severity::Error);
    assert_eq!(severity_for_level("Warning"), Severity::Warning);
    assert_eq!(severity_for_level("Help"), Severity::Hint);
    assert_eq!(severity_for_level("Note"), Severity::Information);
    assert_eq!(severity_for_level(""), Severity::Information);
    assert_eq!(severity_for_level("error"), Severity::Information);
}

#[test]
fn converts_documented_issue() {
    let i = issue("Warning", "strict-types", "Missing xxx of the file.", (0, 0), (5, 0));
    let d = convert_issue_to_diagnostic(&i).unwrap();
    assert_eq!(
        d.range,
        Range { start: Position { line: 0, character: 0 }, end: Position { line: 0, character: 5 } }
    );
    assert_eq!(d.severity, Severity::Warning);
    assert_eq!(d.code, Some("strict-types".to_string()));
    assert_eq!(d.source, "mago");
    assert_eq!(d.message, "Missing xxx of the file.");
}

#[test]
fn empty_code_is_dropped() {
    let i = issue("Error", "", "m", (1, 2), (3, 4));
    let d = convert_issue_to_diagnostic(&i).unwrap();
    assert_eq!(d.code, None);
    assert_eq!(d.severity, Severity::Error);
    assert_eq!(d.range.start, Position { line: 2, character: 1 });
    assert_eq!(d.range.end, Position { line: 4, character: 3 });
}

#[test]
fn missing_level_and_message_default_to_empty() {
    let mut i = issue("Error", "c", "m", (1, 2), (3, 4));
    if let JsonValue::Object(entries) = &mut i {
        entries.retain(|(k, _)| k != "level" && k != "message");
    }
    let d = convert_issue_to_diagnostic(&i).unwrap();
    assert_eq!(d.severity, Severity::Information);
    assert_eq!(d.message, "");
}

#[test]
fn coordinates_are_cut_to_32_bits() {
    let big = (1u64 << 32) + 7;
    let i = issue("Error", "c", "m", (big, 1), (2, big));
    let d = convert_issue_to_diagnostic(&i).unwrap();
    assert_eq!(d.range.start.character, 7);
    assert_eq!(d.range.end.line, 7);
}

#[test]
fn issue_without_coordinates_is_skipped() {
    let i = obj(vec![("level", s("Error")), ("message", s("m"))]);
    assert!(convert_issue_to_diagnostic(&i).is_none());
    let neg = issue("Error", "c", "m", (0, 0), (0, 0));
    let mut neg = neg;
    if let JsonValue::Object(entries) = &mut neg {
        entries.retain(|(k, _)| k != "annotations");
        entries.push((
            "annotations".to_string(),
            JsonValue::Array(vec![obj(vec![(
                "span",
                obj(vec![
                    ("start", point(JsonValue::Number(JsonNumber::NegInt(-1)), n(0))),
                    ("end", point(n(0), n(0))),
                ]),
            )])]),
        ));
    }
    assert!(convert_issue_to_diagnostic(&neg).is_none());
}

#[test]
fn report_keeps_convertible_issues_in_order() {
    let report = obj(vec![(
        "issues",
        JsonValue::Array(vec![
            issue("Error", "a", "first", (0, 0), (1, 0)),
            obj(vec![("level", s("Error"))]),
            issue("Help", "b", "second", (2, 1), (3, 1)),
        ]),
    )]);
    let ds = diagnostics_from_report(&report);
    assert_eq!(ds.len(), 2);
    assert_eq!(ds[0].message, "first");
    assert_eq!(ds[1].message, "second");
    assert_eq!(ds[1].severity, Severity::Hint);
}

#[test]
fn report_without_issue_array_is_empty() {
    assert!(diagnostics_from_report(&obj(vec![("issues", s("none"))])).is_empty());
    assert!(diagnostics_from_report(&obj(vec![])).is_empty());
    assert!(diagnostics_from_report(&JsonValue::Array(vec![])).is_empty());
}

#[test]
fn blank_or_unparsed_output_is_empty() {
    assert!(parse_mago_output(" \n\t\u{3000}").is_empty());
    assert!(parse_mago_output("garbage").is_empty());
    assert!(parse_mago_output("{\"issues\": [").is_empty());
    assert!(parse_mago_output("[]").is_empty());
}

#[test]
fn output_text_is_parsed_into_diagnostics() {
    let output = r#"{"issues": [
        {"level": "Error", "code": "no-undefined", "message": "undefined variable",
         "annotations": [{"span": {"start": {"offset": 4, "line": 2}, "end": {"offset": 9, "line": 3}}}]},
        {"level": "Error", "message": "no annotation"}
    ]}"#;
    let ds = parse_mago_output(output);
    assert_eq!(ds.len(), 1);
    assert_eq!(ds[0].message, "undefined variable");
    assert_eq!(ds[0].severity, Severity::Error);
    assert_eq!(ds[0].source, "mago");
    assert_eq!(ds[0].code, Some("no-undefined".to_string()));
    assert_eq!((ds[0].range.start.line, ds[0].range.start.character), (2, 4));
    assert_eq!((ds[0].range.end.line, ds[0].range.end.character), (3, 9));
}

#[test]
fn reporter_stdout_is_framed_and_parsed() {
    let mut stdout: Vec<u8> = b"Loading \xff\xfe config...\n".to_vec();
    stdout.extend_from_slice(
        br#"{"issues": [{"level": "Warning", "message": "m {x}", "annotations": [{"span": {"start": {"offset": 1, "line": 0}, "end": {"offset": 2, "line": 0}}}]}]}"#,
    );
    stdout.extend_from_slice(b"\nDone.\n");
    let ds = diagnostics_from_output(&stdout);
    assert_eq!(ds.len(), 1);
    assert_eq!(ds[0].message, "m {x}");
    assert_eq!(ds[0].severity, Severity::Warning);
    assert!(diagnostics_from_output(b"no report here").is_empty());
    assert!(diagnostics_from_output(b"").is_empty());
}
