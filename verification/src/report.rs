//! Diagnostics: what the server reports to the editor for each issue that the
//! reporter lists.

use vstd::prelude::*;
use vstd::string::*;
use crate::json::{JsonValue, JsonNumber, at_key, at_index, field, string_of, u64_of, array_of, json_of, parse_json};
use crate::text::{str_eq, is_blank, is_blank_str};
use crate::codec::{lossy_text, string_from_utf8_lossy};
use crate::frame::{framed_json, extract_json_from_output};
use vstd::utf8::*;

verus! {

/// How serious a diagnostic is.
#[derive(Debug, Clone, Copy, PartialEq, Eq, Structural)]
pub enum Severity {
    Error,
    Warning,
    Information,
    Hint,
}

/// A place in a document: a line, and a position on it.
#[derive(Debug, Clone, Copy, PartialEq, Eq, Structural)]
pub struct Position {
    pub line: u32,
    pub character: u32,
}

/// A stretch of a document.
#[derive(Debug, Clone, Copy, PartialEq, Eq, Structural)]
pub struct Range {
    pub start: Position,
    pub end: Position,
}

/// One finding reported to the editor.
#[derive(Debug, Clone, PartialEq, Eq)]
pub struct Diagnostic {
    pub range: Range,
    pub severity: Severity,
    pub code: Option<String>,
    pub source: String,
    pub message: String,
}

impl Diagnostic {
    /// A copy of this diagnostic.
    pub fn duplicate(&self) -> (r: Diagnostic)
        ensures
            r == *self,
    {
        let code = match &self.code {
            Some(c) => Some(c.clone()),
            None => None,
        };
        Diagnostic {
            range: self.range,
            severity: self.severity,
            code,
            source: self.source.clone(),
            message: self.message.clone(),
        }
    }
}

/// Appends copies of `ds` to `out`.
pub fn extend_with_copies(out: &mut Vec<Diagnostic>, ds: &Vec<Diagnostic>)
    ensures
        final(out)@ == old(out)@ + ds@,
{
    let mut i: usize = 0;
    while i < ds.len()
        invariant
            i <= ds@.len(),
            out@ == old(out)@ + ds@.take(i as int),
        decreases ds@.len() - i,
    {
        out.push(ds[i].duplicate());
        assert(ds@.take(i + 1) =~= ds@.take(i as int).push(ds@[i as int]));
        i = i + 1;
    }
    assert(ds@.take(ds@.len() as int) =~= ds@);
}

/// A copy of `ds`.
pub fn copy_diagnostics(ds: &Vec<Diagnostic>) -> (r: Vec<Diagnostic>)
    ensures
        r@ == ds@,
{
    let mut out: Vec<Diagnostic> = Vec::new();
    extend_with_copies(&mut out, ds);
    assert(out@ =~= ds@);
    out
}

/// The text of a string value, empty for any other value.
pub open spec fn text_or_empty(v: JsonValue) -> Seq<char> {
    match string_of(v) {
        Some(s) => s,
        None => Seq::empty(),
    }
}

/// An endpoint coordinate of an issue's first annotation:
/// `annotations[0].span.<end>.<key>`, where it is a non-negative integer.
pub open spec fn annotation_point(issue: JsonValue, end: Seq<char>, key: Seq<char>) -> Option<u64> {
    u64_of(at_key(at_key(at_key(at_index(at_key(issue, "annotations"@), 0), "span"@), end), key))
}

/// The severity that a reporter level maps to.
pub open spec fn severity_of(level: Seq<char>) -> Severity {
    if level == "Error"@ {
        Severity::Error
    } else if level == "Warning"@ {
        Severity::Warning
    } else if level == "Help"@ {
        Severity::Hint
    } else {
        Severity::Information
    }
}

/// An issue yields a diagnostic when the four coordinates of its first
/// annotation are non-negative integers.
pub open spec fn issue_converts(issue: JsonValue) -> bool {
    &&& annotation_point(issue, "start"@, "offset"@) is Some
    &&& annotation_point(issue, "start"@, "line"@) is Some
    &&& annotation_point(issue, "end"@, "offset"@) is Some
    &&& annotation_point(issue, "end"@, "line"@) is Some
}

/// `d` is the diagnostic for `issue`: the coordinates of its first annotation,
/// cut to 32 bits, give the range; the level gives the severity; a non-empty
/// code is kept; the message is kept; the source is `mago`.
pub open spec fn describes(d: Diagnostic, issue: JsonValue) -> bool {
    let code = text_or_empty(at_key(issue, "code"@));
    &&& issue_converts(issue)
    &&& d.range.start.line == annotation_point(issue, "start"@, "line"@)->0 as u32
    &&& d.range.start.character == annotation_point(issue, "start"@, "offset"@)->0 as u32
    &&& d.range.end.line == annotation_point(issue, "end"@, "line"@)->0 as u32
    &&& d.range.end.character == annotation_point(issue, "end"@, "offset"@)->0 as u32
    &&& d.severity == severity_of(text_or_empty(at_key(issue, "level"@)))
    &&& (if code.len() == 0 { d.code is None } else { d.code matches Some(c) && c@ == code })
    &&& d.source@ == "mago"@
    &&& d.message@ == text_or_empty(at_key(issue, "message"@))
}

/// The issues listed under `issues` in a report; none where the report holds
/// no such array.
pub open spec fn report_issues(report: JsonValue) -> Seq<JsonValue> {
    match field(report, "issues"@) {
        Some(v) => match array_of(v) {
            Some(items) => items,
            None => Seq::empty(),
        },
        None => Seq::empty(),
    }
}

/// The issues of a report that yield a diagnostic, in order.
pub open spec fn convertible_issues(report: JsonValue) -> Seq<JsonValue> {
    report_issues(report).filter(converts())
}

/// The test of `issue_converts`, as a function value.
pub open spec fn converts() -> spec_fn(JsonValue) -> bool {
    |i: JsonValue| issue_converts(i)
}

proof fn lemma_filter_step(all: Seq<JsonValue>, i: int)
    requires
        0 <= i < all.len(),
    ensures
        all.take(i + 1).filter(converts()) == if issue_converts(all[i]) {
            all.take(i).filter(converts()).push(all[i])
        } else {
            all.take(i).filter(converts())
        },
{
    reveal(Seq::filter);
    assert(all.take(i + 1).drop_last() =~= all.take(i));
    assert(all.take(i + 1).last() == all[i]);
}

proof fn lemma_filter_empty(all: Seq<JsonValue>)
    ensures
        all.take(0).filter(converts()).len() == 0,
{
    reveal(Seq::filter);
}

/// `ds` are the diagnostics of `issues`, one for each, in order.
pub open spec fn diagnostics_of(ds: Seq<Diagnostic>, issues: Seq<JsonValue>) -> bool {
    &&& ds.len() == issues.len()
    &&& forall|k: int| 0 <= k < ds.len() ==> describes(#[trigger] ds[k], issues[k])
}

/// The diagnostics for the reporter's output: none for blank output or output
/// that is no JSON (`parsed` is `None`); otherwise those of its report.
pub open spec fn output_diagnostics(ds: Seq<Diagnostic>, output: Seq<char>, parsed: Option<JsonValue>) -> bool {
    if is_blank(output) {
        ds.len() == 0
    } else {
        match parsed {
            None => ds.len() == 0,
            Some(report) => diagnostics_of(ds, convertible_issues(report)),
        }
    }
}

/// The text of a string value, empty for any other value.
fn text_or_empty_exec(v: &JsonValue) -> (r: &str)
    ensures
        r@ == text_or_empty(*v),
{
    match v.as_str() {
        Some(s) => s,
        None => {
            proof { reveal_strlit(""); }
            ""
        },
    }
}

/// Maps a reporter level to a severity.
pub fn severity_for_level(level: &str) -> (r: Severity)
    ensures
        r == severity_of(level@),
{
    if str_eq(level, "Error") {
        Severity::Error
    } else if str_eq(level, "Warning") {
        Severity::Warning
    } else if str_eq(level, "Help") {
        Severity::Hint
    } else {
        Severity::Information
    }
}

fn annotation_point_exec(issue: &JsonValue, end: &str, key: &str) -> (r: Option<u64>)
    ensures
        r == annotation_point(*issue, end@, key@),
{
    issue.at_key("annotations").at_index(0).at_key("span").at_key(end).at_key(key).as_u64()
}

/// The diagnostic for one issue of the reporter; `None` where the issue's
/// first annotation lacks a coordinate.
pub fn convert_issue_to_diagnostic(issue: &JsonValue) -> (r: Option<Diagnostic>)
    ensures
        r is Some <==> issue_converts(*issue),
        r matches Some(d) ==> describes(d, *issue),
{
    let level = text_or_empty_exec(issue.at_key("level"));
    let code = text_or_empty_exec(issue.at_key("code"));
    let message = text_or_empty_exec(issue.at_key("message"));
    let start_offset = match annotation_point_exec(issue, "start", "offset") {
        Some(n) => n,
        None => return None,
    };
    let start_line = match annotation_point_exec(issue, "start", "line") {
        Some(n) => n,
        None => return None,
    };
    let end_offset = match annotation_point_exec(issue, "end", "offset") {
        Some(n) => n,
        None => return None,
    };
    let end_line = match annotation_point_exec(issue, "end", "line") {
        Some(n) => n,
        None => return None,
    };
    let severity = severity_for_level(level);
    let range = Range {
        start: Position { line: start_line as u32, character: start_offset as u32 },
        end: Position { line: end_line as u32, character: end_offset as u32 },
    };
    let code = if code.is_empty() {
        None
    } else {
        Some(code.to_owned())
    };
    Some(Diagnostic {
        range,
        severity,
        code,
        source: String::from_str("mago"),
        message: message.to_owned(),
    })
}

/// The diagnostics for a report of the reporter: one for each listed issue
/// that converts, in order.
pub fn diagnostics_from_report(report: &JsonValue) -> (r: Vec<Diagnostic>)
    ensures
        diagnostics_of(r@, convertible_issues(*report)),
{
    let mut out: Vec<Diagnostic> = Vec::new();
    let issues = match report.get("issues") {
        Some(v) => match v.as_array() {
            Some(items) => items,
            None => {
                proof { reveal(Seq::filter); }
                return out;
            },
        },
        None => {
            proof { reveal(Seq::filter); }
            return out;
        },
    };
    let ghost all = issues@;
    assert(all == report_issues(*report));
    proof { lemma_filter_empty(all); }
    let mut i: usize = 0;
    while i < issues.len()
        invariant
            issues@ == all,
            i <= all.len(),
            diagnostics_of(out@, all.take(i as int).filter(converts())),
        decreases all.len() - i,
    {
        proof {
            lemma_filter_step(all, i as int);
        }
        match convert_issue_to_diagnostic(&issues[i]) {
            Some(d) => {
                out.push(d);
            },
            None => {},
        }
        i = i + 1;
    }
    assert(all.take(all.len() as int) =~= all);
    out
}

/// The diagnostics for the reporter's output `output`: none for blank
/// output or output that is no JSON; otherwise those of the report it parses
/// to.
pub fn parse_mago_output(output: &str) -> (r: Vec<Diagnostic>)
    ensures
        output_diagnostics(r@, output@, json_of(output@)),
{
    if is_blank_str(output) {
        return Vec::new();
    }
    match parse_json(output) {
        None => Vec::new(),
        Some(report) => diagnostics_from_report(&report),
    }
}

/// The JSON text of the reporter's standard output `stdout`: the output read
/// as UTF-8, invalid sequences replaced, and framed to its report.
pub open spec fn reporter_json(stdout: Seq<u8>) -> Seq<char> {
    decode_utf8(framed_json(encode_utf8(lossy_text(stdout))))
}

/// The diagnostics for what the reporter wrote to its standard output: the
/// output is read as text, framed to its JSON report and parsed.
pub fn diagnostics_from_output(stdout: &[u8]) -> (r: Vec<Diagnostic>)
    ensures
        output_diagnostics(r@, reporter_json(stdout@), json_of(reporter_json(stdout@))),
{
    let text = string_from_utf8_lossy(stdout);
    let json = extract_json_from_output(text.as_str());
    proof {
        encode_utf8_decode_utf8(json@);
    }
    parse_mago_output(json.as_str())
}

} // verus!

verus! {

/// The coordinate `key` (`line` or `offset`) of the `end` (`start` or `end`)
/// of the span of the annotation at `index` of an issue.
pub open spec fn span_coordinate(issue: JsonValue, index: int, end: Seq<char>, key: Seq<char>) -> Option<u64> {
    let annotations = match field(issue, "annotations"@) {
        Some(a) => a,
        None => JsonValue::Null,
    };
    let annotation = match annotations {
        JsonValue::Array(items) => if 0 <= index < items.len() { items@[index] } else { JsonValue::Null },
        _ => JsonValue::Null,
    };
    match field(annotation, "span"@) {
        Some(span) => match field(span, end) {
            Some(point) => match field(point, key) {
                Some(JsonValue::Number(JsonNumber::PosInt(n))) => Some(n),
                _ => None,
            },
            None => None,
        },
        None => None,
    }
}

/// The range of an issue's diagnostic comes from its first annotation alone:
/// its start and end are the line and offset of the start and end of the
/// span of `annotations[0]`, cut to 32 bits, whatever annotations follow.
pub proof fn law_range_from_first_annotation(d: Diagnostic, issue: JsonValue)
    requires
        describes(d, issue),
    ensures
        span_coordinate(issue, 0, "start"@, "line"@) matches Some(n) && d.range.start.line == n as u32,
        span_coordinate(issue, 0, "start"@, "offset"@) matches Some(n) && d.range.start.character == n as u32,
        span_coordinate(issue, 0, "end"@, "line"@) matches Some(n) && d.range.end.line == n as u32,
        span_coordinate(issue, 0, "end"@, "offset"@) matches Some(n) && d.range.end.character == n as u32,
{
    lemma_annotation_point_is_first(issue, "start"@, "line"@);
    lemma_annotation_point_is_first(issue, "start"@, "offset"@);
    lemma_annotation_point_is_first(issue, "end"@, "line"@);
    lemma_annotation_point_is_first(issue, "end"@, "offset"@);
}

proof fn lemma_annotation_point_is_first(issue: JsonValue, end: Seq<char>, key: Seq<char>)
    ensures
        annotation_point(issue, end, key) == span_coordinate(issue, 0, end, key),
{
    let annotations = at_key(issue, "annotations"@);
    let first = at_index(annotations, 0);
    let point = at_key(at_key(first, "span"@), end);
    assert(u64_of(at_key(point, key)) == span_coordinate(issue, 0, end, key));
}

/// The severity of an issue's diagnostic: the level `Error` gives an error,
/// `Warning` a warning, `Help` a hint, and any other level, or none, an
/// information.
pub proof fn law_severity_from_level(d: Diagnostic, issue: JsonValue)
    requires
        describes(d, issue),
    ensures
        d.severity == match field(issue, "level"@) {
            Some(JsonValue::String(l)) => if l@ == "Error"@ {
                Severity::Error
            } else if l@ == "Warning"@ {
                Severity::Warning
            } else if l@ == "Help"@ {
                Severity::Hint
            } else {
                Severity::Information
            },
            _ => Severity::Information,
        },
{
    let level = at_key(issue, "level"@);
    assert(d.severity == severity_of(text_or_empty(level)));
    match field(issue, "level"@) {
        Some(JsonValue::String(l)) => {
            assert(text_or_empty(level) == l@);
            assert(d.severity == severity_of(l@));
        },
        _ => {
            assert(string_of(level) is None);
            assert(text_or_empty(level) == Seq::<char>::empty());
            assert(Seq::<char>::empty() != "Error"@ && Seq::<char>::empty() != "Warning"@
                && Seq::<char>::empty() != "Help"@) by {
                reveal_strlit("Error");
                reveal_strlit("Warning");
                reveal_strlit("Help");
            }
        },
    }
}

/// The text of an issue's diagnostic: a code that is a non-empty string is
/// kept, and no code is given otherwise; the message is the issue's message
/// string, empty where there is none; the source is `mago`.
pub proof fn law_code_message_and_source(d: Diagnostic, issue: JsonValue)
    requires
        describes(d, issue),
    ensures
        match field(issue, "code"@) {
            Some(JsonValue::String(c)) => if c@.len() > 0 { d.code matches Some(k) && k@ == c@ } else { d.code is None },
            _ => d.code is None,
        },
        match field(issue, "message"@) {
            Some(JsonValue::String(m)) => d.message@ == m@,
            _ => d.message@.len() == 0,
        },
        d.source@ == "mago"@,
{
    let code = at_key(issue, "code"@);
    let message = at_key(issue, "message"@);
    match field(issue, "code"@) {
        Some(JsonValue::String(c)) => assert(text_or_empty(code) == c@),
        _ => {
            assert(string_of(code) is None);
            assert(text_or_empty(code) == Seq::<char>::empty());
        },
    }
    match field(issue, "message"@) {
        Some(JsonValue::String(m)) => assert(text_or_empty(message) == m@),
        _ => {
            assert(string_of(message) is None);
            assert(text_or_empty(message) == Seq::<char>::empty());
        },
    }
}

/// Annotations after the first never change an issue's range: two issues
/// whose first annotations have the same span get diagnostics with the same
/// range, whatever else their annotation lists hold.
pub proof fn law_later_annotations_do_not_matter(d1: Diagnostic, issue1: JsonValue, d2: Diagnostic, issue2: JsonValue)
    requires
        describes(d1, issue1),
        describes(d2, issue2),
        forall|end: Seq<char>, key: Seq<char>| span_coordinate(issue1, 0, end, key) == span_coordinate(issue2, 0, end, key),
    ensures
        d1.range == d2.range,
{
    law_range_from_first_annotation(d1, issue1);
    law_range_from_first_annotation(d2, issue2);
    assert(span_coordinate(issue1, 0, "start"@, "line"@) == span_coordinate(issue2, 0, "start"@, "line"@));
    assert(span_coordinate(issue1, 0, "start"@, "offset"@) == span_coordinate(issue2, 0, "start"@, "offset"@));
    assert(span_coordinate(issue1, 0, "end"@, "line"@) == span_coordinate(issue2, 0, "end"@, "line"@));
    assert(span_coordinate(issue1, 0, "end"@, "offset"@) == span_coordinate(issue2, 0, "end"@, "offset"@));
}

/// No issue yields more than one diagnostic: a report never gives more
/// diagnostics than it lists issues.
pub proof fn law_at_most_one_diagnostic_per_issue(report: JsonValue)
    ensures
        convertible_issues(report).len() <= report_issues(report).len(),
{
    report_issues(report).filter_lemma(converts());
}

/// Every diagnostic names `mago` as its source and comes from an issue whose
/// annotation gives its whole range.
pub proof fn law_diagnostics_come_from_mago(ds: Seq<Diagnostic>, report: JsonValue)
    requires
        diagnostics_of(ds, convertible_issues(report)),
    ensures
        forall|k: int| 0 <= k < ds.len() ==> (#[trigger] ds[k]).source@ == "mago"@,
        forall|k: int| 0 <= k < ds.len() ==> issue_converts(convertible_issues(report)[k]),
{
    assert forall|k: int| 0 <= k < ds.len() implies issue_converts(convertible_issues(report)[k]) by {
        assert(describes(ds[k], convertible_issues(report)[k]));
    }
}

/// Blank output gives no diagnostics, whatever parsing it gave.
pub proof fn law_blank_output_gives_nothing(ds: Seq<Diagnostic>, output: Seq<char>, parsed: Option<JsonValue>)
    requires
        is_blank(output),
        output_diagnostics(ds, output, parsed),
    ensures
        ds.len() == 0,
{
}

} // verus!
