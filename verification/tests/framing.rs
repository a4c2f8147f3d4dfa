use php_mago::frame::extract_json_from_output;

#[test]
fn extracts_object_after_noise() {
    let out = "debug: starting\n{\"issues\": []}\ntrailing";
    assert_eq!(extract_json_from_output(out), "{\"issues\": []}");
}

#[test]
fn ignores_braces_inside_strings() {
    let out = "x {\"a\": \"}{\", \"b\": {\"c\": 1}} y";
    assert_eq!(extract_json_from_output(out), "{\"a\": \"}{\", \"b\": {\"c\": 1}}");
}

#[test]
fn escaped_quote_does_not_end_string() {
    let out = "{\"a\": \"x\\\"}\"}rest";
    assert_eq!(extract_json_from_output(out), "{\"a\": \"x\\\"}\"}");
}

#[test]
fn no_brace_returns_output() {
    let out = "no json here";
    assert_eq!(extract_json_from_output(out), "no json here");
}

#[test]
fn unclosed_object_returns_output() {
    let out = "pre {\"a\": {\"b\": 1}";
    assert_eq!(extract_json_from_output(out), out);
}

#[test]
fn empty_output_returns_empty() {
    assert_eq!(extract_json_from_output(""), "");
}

#[test]
fn multibyte_text_around_object() {
    let out = "résumé ✓ {\"m\": \"ü}\"} fin ✓";
    assert_eq!(extract_json_from_output(out), "{\"m\": \"ü}\"}");
}

#[test]
fn framing_is_idempotent_on_example() {
    let out = "log line {\"a\": [1, {\"b\": \"{\"}]} more {\"c\": 2}";
    let once = extract_json_from_output(out);
    let twice = extract_json_from_output(&once);
    assert_eq!(once, twice);
    assert_eq!(once, "{\"a\": [1, {\"b\": \"{\"}]}");
}
