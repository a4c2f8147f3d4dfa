//! Framing of the reporter's standard output: the reporter may print other
//! text around its JSON report, and the report is the first balanced `{ ... }`
//! object of the output.

use vstd::prelude::*;
use vstd::utf8::*;
use vstd::string::*;

verus! {

broadcast use {encode_utf8_decode_utf8, encode_utf8_valid_utf8};

/// The byte `{`.
pub open spec fn open_brace() -> u8 { 0x7b }
/// The byte `}`.
pub open spec fn close_brace() -> u8 { 0x7d }
/// The byte `"`.
pub open spec fn quote() -> u8 { 0x22 }
/// The byte `\`.
pub open spec fn backslash() -> u8 { 0x5c }

/// `i` is the position of the first `{` in `b`.
pub open spec fn is_first_open_brace(b: Seq<u8>, i: int) -> bool {
    &&& 0 <= i < b.len()
    &&& b[i] == open_brace()
    &&& forall|j: int| 0 <= j < i ==> b[j] != open_brace()
}

/// Scans `b` from position `i` with `depth` braces open, inside a string
/// literal or not, and with an escape pending or not. The result is the
/// position of the `}` that brings the depth back to zero, outside any string
/// literal; a byte that follows a backslash inside a string literal is skipped.
pub open spec fn closing_brace(b: Seq<u8>, i: int, depth: int, in_string: bool, escape: bool) -> Option<int>
    decreases b.len() - i,
{
    if i < 0 || i >= b.len() {
        None
    } else if escape {
        closing_brace(b, i + 1, depth, in_string, false)
    } else if b[i] == backslash() && in_string {
        closing_brace(b, i + 1, depth, in_string, true)
    } else {
        let now_in_string = if b[i] == quote() { !in_string } else { in_string };
        if !now_in_string && b[i] == open_brace() {
            closing_brace(b, i + 1, depth + 1, now_in_string, false)
        } else if !now_in_string && b[i] == close_brace() {
            if depth - 1 == 0 {
                Some(i)
            } else {
                closing_brace(b, i + 1, depth - 1, now_in_string, false)
            }
        } else {
            closing_brace(b, i + 1, depth, now_in_string, false)
        }
    }
}

/// The bytes of the JSON object framed in `b`: from the first `{` to the `}`
/// that closes it; the whole of `b` where there is no `{` or it is never
/// closed.
pub open spec fn framed_json(b: Seq<u8>) -> Seq<u8> {
    if exists|s: int| is_first_open_brace(b, s) {
        let s = choose|s: int| is_first_open_brace(b, s);
        match closing_brace(b, s, 0, false, false) {
            Some(e) => b.subrange(s, e + 1),
            None => b,
        }
    } else {
        b
    }
}

proof fn lemma_first_open_brace_unique(b: Seq<u8>, s: int, t: int)
    requires
        is_first_open_brace(b, s),
        is_first_open_brace(b, t),
    ensures
        s == t,
{
}

/// A closing position lies at or after the scan's start and holds a `}`.
pub proof fn lemma_closing_brace_bounds(b: Seq<u8>, i: int, depth: int, in_string: bool, escape: bool)
    ensures
        closing_brace(b, i, depth, in_string, escape) matches Some(e) ==> {
            &&& i <= e < b.len()
            &&& b[e] == close_brace()
        },
    decreases b.len() - i,
{
    if i < 0 || i >= b.len() {
    } else {
        let now_in_string = if b[i] == quote() { !in_string } else { in_string };
        lemma_closing_brace_bounds(b, i + 1, depth, in_string, false);
        lemma_closing_brace_bounds(b, i + 1, depth, in_string, true);
        lemma_closing_brace_bounds(b, i + 1, depth + 1, now_in_string, false);
        lemma_closing_brace_bounds(b, i + 1, depth - 1, now_in_string, false);
        lemma_closing_brace_bounds(b, i + 1, depth, now_in_string, false);
    }
}

/// In valid UTF-8, the position after an ASCII byte that starts a character
/// starts a character too.
proof fn lemma_boundary_after_ascii(bytes: Seq<u8>, k: int)
    requires
        valid_utf8(bytes),
        is_char_boundary(bytes, k),
        0 <= k < bytes.len(),
        bytes[k] < 0x80,
    ensures
        is_char_boundary(bytes, k + 1),
    decreases bytes.len(),
{
    reveal_with_fuel(is_char_boundary, 2);
    if k == 0 {
        assert(length_of_first_scalar(bytes) == 1);
        is_char_boundary_start_end_of_seq(pop_first_scalar(bytes));
    } else {
        let l = length_of_first_scalar(bytes);
        let rest = pop_first_scalar(bytes);
        assert(rest[k - l] == bytes[k]);
        lemma_boundary_after_ascii(rest, k - l);
    }
}

proof fn lemma_closing_brace_in_frame(b: Seq<u8>, s: int, e: int, k: int, depth: int, in_string: bool, escape: bool)
    requires
        0 <= s <= k <= e < b.len(),
        closing_brace(b, k, depth, in_string, escape) == Some(e),
    ensures
        closing_brace(b.subrange(s, e + 1), k - s, depth, in_string, escape) == Some(e - s),
    decreases e - k,
{
    let f = b.subrange(s, e + 1);
    assert(f[k - s] == b[k]);
    let now_in_string = if b[k] == quote() { !in_string } else { in_string };
    if escape {
        lemma_closing_brace_bounds(b, k + 1, depth, in_string, false);
        lemma_closing_brace_in_frame(b, s, e, k + 1, depth, in_string, false);
    } else if b[k] == backslash() && in_string {
        lemma_closing_brace_bounds(b, k + 1, depth, in_string, true);
        lemma_closing_brace_in_frame(b, s, e, k + 1, depth, in_string, true);
    } else if !now_in_string && b[k] == open_brace() {
        lemma_closing_brace_bounds(b, k + 1, depth + 1, now_in_string, false);
        lemma_closing_brace_in_frame(b, s, e, k + 1, depth + 1, now_in_string, false);
    } else if !now_in_string && b[k] == close_brace() {
        if depth - 1 != 0 {
            lemma_closing_brace_bounds(b, k + 1, depth - 1, now_in_string, false);
            lemma_closing_brace_in_frame(b, s, e, k + 1, depth - 1, now_in_string, false);
        }
    } else {
        lemma_closing_brace_bounds(b, k + 1, depth, now_in_string, false);
        lemma_closing_brace_in_frame(b, s, e, k + 1, depth, now_in_string, false);
    }
}

/// Framing is idempotent: the framed object of a framed object is itself.
pub proof fn law_framing_idempotent(b: Seq<u8>)
    ensures
        framed_json(framed_json(b)) == framed_json(b),
{
    if exists|s: int| is_first_open_brace(b, s) {
        let s = choose|s: int| is_first_open_brace(b, s);
        match closing_brace(b, s, 0, false, false) {
            Some(e) => {
                lemma_closing_brace_bounds(b, s, 0, false, false);
                let f = b.subrange(s, e + 1);
                assert(framed_json(b) == f);
                assert(is_first_open_brace(f, 0));
                let t = choose|t: int| is_first_open_brace(f, t);
                lemma_first_open_brace_unique(f, t, 0);
                lemma_closing_brace_in_frame(b, s, e, s, 0, false, false);
                assert(f.subrange(0, e - s + 1) =~= f);
            },
            None => {},
        }
    }
}

/// The framed object is a contiguous part of the output: from the first `{`
/// up to a `}`.
pub proof fn law_frame_is_a_slice(b: Seq<u8>)
    ensures
        framed_json(b) == b || exists|s: int, e: int| {
            &&& is_first_open_brace(b, s)
            &&& s <= e < b.len()
            &&& b[e] == close_brace()
            &&& framed_json(b) == b.subrange(s, e + 1)
        },
{
    if exists|s: int| is_first_open_brace(b, s) {
        let s = choose|s: int| is_first_open_brace(b, s);
        lemma_closing_brace_bounds(b, s, 0, false, false);
        match closing_brace(b, s, 0, false, false) {
            Some(e) => {
                assert(is_first_open_brace(b, s) && s <= e < b.len() && b[e] == close_brace()
                    && framed_json(b) == b.subrange(s, e + 1));
            },
            None => {},
        }
    }
}

/// A byte that may stand between the pieces of a JSON object's text
/// without opening or closing anything: neither `{`, `}`, `"` nor `\`.
pub open spec fn plain_json_byte(c: u8) -> bool {
    c != 0x7bu8 && c != 0x7du8 && c != 0x22u8 && c != 0x5cu8
}

/// The text between the quotes of a JSON string literal: any bytes but `"`
/// and `\`, and escapes, each a `\` followed by any byte.
pub open spec fn json_string_body(s: Seq<u8>) -> bool
    decreases s.len(),
{
    if s.len() == 0 {
        true
    } else if s[0] == 0x5cu8 {
        s.len() >= 2 && json_string_body(s.subrange(2, s.len() as int))
    } else {
        s[0] != 0x22u8 && json_string_body(s.subrange(1, s.len() as int))
    }
}

/// A piece of the text of a JSON object, as far as braces and quotes go.
pub enum JsonPiece {
    /// A byte of a name, number, literal, bracket, separator or white space.
    Plain(u8),
    /// A string literal; its body is what stands between the quotes.
    Str(Seq<u8>),
    /// A nested object, with its members.
    Object(Seq<JsonPiece>),
}

/// The bytes of a piece.
pub open spec fn piece_text(p: JsonPiece) -> Seq<u8>
    decreases p,
{
    match p {
        JsonPiece::Plain(c) => seq![c],
        JsonPiece::Str(body) => seq![0x22u8] + body + seq![0x22u8],
        JsonPiece::Object(members) => seq![0x7bu8] + members_text(members) + seq![0x7du8],
    }
}

/// The bytes of a run of pieces, one after the other.
pub open spec fn members_text(ps: Seq<JsonPiece>) -> Seq<u8>
    decreases ps,
{
    if ps.len() == 0 {
        Seq::empty()
    } else {
        piece_text(ps[0]) + members_text(ps.subrange(1, ps.len() as int))
    }
}

/// A piece is well formed: a plain byte, a string literal with a valid body,
/// or an object of well-formed pieces.
pub open spec fn piece_well_formed(p: JsonPiece) -> bool
    decreases p,
{
    match p {
        JsonPiece::Plain(c) => plain_json_byte(c),
        JsonPiece::Str(body) => json_string_body(body),
        JsonPiece::Object(members) => members_well_formed(members),
    }
}

/// Every piece of a run is well formed.
pub open spec fn members_well_formed(ps: Seq<JsonPiece>) -> bool
    decreases ps,
{
    ps.len() == 0 || (piece_well_formed(ps[0]) && members_well_formed(ps.subrange(1, ps.len() as int)))
}

proof fn lemma_scan_string_body(b: Seq<u8>, i: int, n: int, d: int)
    requires
        0 <= i,
        0 <= n,
        i + n <= b.len(),
        json_string_body(b.subrange(i, i + n)),
    ensures
        closing_brace(b, i, d, true, false) == closing_brace(b, i + n, d, true, false),
    decreases n,
{
    let s = b.subrange(i, i + n);
    if n > 0 {
        assert(s[0] == b[i]);
        if b[i] == 0x5cu8 {
            assert(s.subrange(2, n) =~= b.subrange(i + 2, i + n));
            lemma_scan_string_body(b, i + 2, n - 2, d);
            assert(closing_brace(b, i + 1, d, true, true) == closing_brace(b, i + 2, d, true, false));
            assert(closing_brace(b, i, d, true, false) == closing_brace(b, i + 1, d, true, true));
        } else {
            assert(s.subrange(1, n) =~= b.subrange(i + 1, i + n));
            lemma_scan_string_body(b, i + 1, n - 1, d);
            assert(closing_brace(b, i, d, true, false) == closing_brace(b, i + 1, d, true, false));
        }
    }
}

proof fn lemma_scan_piece(b: Seq<u8>, i: int, p: JsonPiece, d: int)
    requires
        0 <= i,
        i + piece_text(p).len() <= b.len(),
        b.subrange(i, i + piece_text(p).len()) == piece_text(p),
        piece_well_formed(p),
        1 <= d,
    ensures
        closing_brace(b, i, d, false, false) == closing_brace(b, i + piece_text(p).len(), d, false, false),
    decreases p, 0nat,
{
    let t = piece_text(p);
    let n = t.len() as int;
    assert(t[0] == b[i]);
    match p {
        JsonPiece::Plain(c) => {
            assert(closing_brace(b, i, d, false, false) == closing_brace(b, i + 1, d, false, false));
        },
        JsonPiece::Str(body) => {
            assert(t[n - 1] == b[i + n - 1]);
            assert(t.subrange(1, n - 1) =~= body);
            assert(b.subrange(i + 1, i + n - 1) =~= t.subrange(1, n - 1));
            lemma_scan_string_body(b, i + 1, n - 2, d);
            assert(closing_brace(b, i, d, false, false) == closing_brace(b, i + 1, d, true, false));
            assert(closing_brace(b, i + n - 1, d, true, false) == closing_brace(b, i + n, d, false, false));
        },
        JsonPiece::Object(members) => {
            lemma_scan_object(b, i, members, d);
        },
    }
}

proof fn lemma_scan_object(b: Seq<u8>, i: int, members: Seq<JsonPiece>, d: int)
    requires
        0 <= i,
        i + piece_text(JsonPiece::Object(members)).len() <= b.len(),
        b.subrange(i, i + piece_text(JsonPiece::Object(members)).len()) == piece_text(JsonPiece::Object(members)),
        members_well_formed(members),
        0 <= d,
    ensures
        ({
            let n = piece_text(JsonPiece::Object(members)).len() as int;
            closing_brace(b, i, d, false, false) == if d == 0 {
                Some(i + n - 1)
            } else {
                closing_brace(b, i + n, d, false, false)
            }
        }),
    decreases members, 1nat,
{
    let t = piece_text(JsonPiece::Object(members));
    let n = t.len() as int;
    let inner = members_text(members);
    assert(t[0] == b[i]);
    assert(t[n - 1] == b[i + n - 1]);
    assert(t.subrange(1, n - 1) =~= inner);
    assert(b.subrange(i + 1, i + n - 1) =~= t.subrange(1, n - 1));
    lemma_scan_members(b, i + 1, members, d + 1);
    assert(closing_brace(b, i, d, false, false) == closing_brace(b, i + 1, d + 1, false, false));
}

proof fn lemma_scan_members(b: Seq<u8>, i: int, ps: Seq<JsonPiece>, d: int)
    requires
        0 <= i,
        i + members_text(ps).len() <= b.len(),
        b.subrange(i, i + members_text(ps).len()) == members_text(ps),
        members_well_formed(ps),
        1 <= d,
    ensures
        closing_brace(b, i, d, false, false) == closing_brace(b, i + members_text(ps).len(), d, false, false),
    decreases ps, 0nat,
{
    if ps.len() > 0 {
        let first = piece_text(ps[0]);
        let rest = ps.subrange(1, ps.len() as int);
        let k = first.len() as int;
        let m = members_text(ps);
        assert(m == first + members_text(rest));
        assert(b.subrange(i, i + k) =~= first) by {
            assert(b.subrange(i, i + k) =~= m.subrange(0, k));
        }
        assert(b.subrange(i + k, i + m.len()) =~= members_text(rest)) by {
            assert(b.subrange(i + k, i + m.len()) =~= m.subrange(k, m.len() as int));
        }
        lemma_scan_piece(b, i, ps[0], d);
        lemma_scan_members(b, i + k, rest, d);
    }
}

/// The report is found whatever the reporter prints before it (with no `{`
/// in it) and after it: the framed output is exactly the text of the JSON
/// object, however its string literals read (braces, apostrophes and escaped
/// quotes among them).
pub proof fn law_report_framed_among_other_text(prefix: Seq<u8>, members: Seq<JsonPiece>, suffix: Seq<u8>)
    requires
        forall|j: int| 0 <= j < prefix.len() ==> prefix[j] != 0x7bu8,
        members_well_formed(members),
    ensures
        framed_json(prefix + piece_text(JsonPiece::Object(members)) + suffix) == piece_text(JsonPiece::Object(members)),
{
    let report = piece_text(JsonPiece::Object(members));
    let b = prefix + report + suffix;
    let s = prefix.len() as int;
    let n = report.len() as int;
    assert(b.subrange(s, s + n) =~= report);
    assert(b[s] == report[0]);
    assert(is_first_open_brace(b, s));
    let t = choose|t: int| is_first_open_brace(b, t);
    lemma_first_open_brace_unique(b, t, s);
    lemma_scan_object(b, s, members, 0);
}

/// Output without a `{` holds no report to frame: it is returned whole.
pub proof fn law_output_without_brace_is_kept(b: Seq<u8>)
    requires
        forall|j: int| 0 <= j < b.len() ==> b[j] != 0x7bu8,
    ensures
        framed_json(b) == b,
{
}

/// Returns the JSON object that the reporter printed: the bytes from the first
/// `{` of `output` to the `}` that closes it, braces inside string literals
/// not counted. Where there is no `{`, or it is never closed, `output` itself.
pub fn extract_json_from_output(output: &str) -> (r: String)
    ensures
        encode_utf8(r@) == framed_json(encode_utf8(output@)),
{
    let bytes = output.as_bytes();
    let ghost b = bytes@;
    let n = bytes.len();
    let mut start: usize = 0;
    while start < n && bytes[start] != 0x7b
        invariant
            bytes@ == b,
            b == encode_utf8(output@),
            n == b.len(),
            start <= n,
            forall|j: int| 0 <= j < start ==> b[j] != open_brace(),
        decreases n - start,
    {
        start = start + 1;
    }
    if start == n {
        assert(!exists|s: int| is_first_open_brace(b, s));
        return output.to_owned();
    }
    assert(is_first_open_brace(b, start as int));
    proof {
        let s = choose|s: int| is_first_open_brace(b, s);
        lemma_first_open_brace_unique(b, s, start as int);
    }
    let mut depth: usize = 0;
    let mut in_string = false;
    let mut escape = false;
    let mut i: usize = start;
    while i < n
        invariant
            bytes@ == b,
            b == encode_utf8(output@),
            n == b.len(),
            start < n,
            is_first_open_brace(b, start as int),
            start <= i <= n,
            depth <= i - start,
            i == start ==> (depth == 0 && !in_string && !escape),
            i > start ==> depth >= 1,
            closing_brace(b, start as int, 0, false, false) == closing_brace(b, i as int, depth as int, in_string, escape),
        decreases n - i,
    {
        let c = bytes[i];
        let ghost state_before = (depth as int, in_string, escape);
        if escape {
            escape = false;
        } else if c == 0x5c && in_string {
            escape = true;
        } else {
            if c == 0x22 {
                in_string = !in_string;
            }
            if !in_string && c == 0x7b {
                depth = depth + 1;
            } else if !in_string && c == 0x7d {
                if depth == 1 {
                    let e = i;
                    assert(closing_brace(b, i as int, state_before.0, state_before.1, state_before.2) == Some(i as int));
                    proof {
                        encode_utf8_valid_utf8(output@);
                        is_char_boundary_iff_is_leading_byte(b, start as int);
                        is_char_boundary_iff_is_leading_byte(b, e as int);
                        lemma_boundary_after_ascii(b, e as int);
                    }
                    let (_, tail) = output.split_at(start);
                    proof {
                        valid_utf8_split(b, start as int);
                        let tb = b.subrange(start as int, b.len() as int);
                        assert(tail.spec_bytes() =~= tb);
                        if e + 1 < n {
                            is_char_boundary_iff_not_is_continuation_byte(b, e + 1);
                            assert(tb[e + 1 - start] == b[e + 1]);
                            is_char_boundary_iff_not_is_continuation_byte(tb, e + 1 - start);
                        } else {
                            is_char_boundary_start_end_of_seq(tb);
                        }
                    }
                    let (framed, _) = tail.split_at(e + 1 - start);
                    assert(framed.spec_bytes() =~= b.subrange(start as int, e + 1));
                    assert(is_first_open_brace(b, start as int));
                    assert(framed_json(b) == b.subrange(start as int, e + 1));
                    return framed.to_owned();
                }
                depth = depth - 1;
            }
        }
        i = i + 1;
    }
    assert(closing_brace(b, i as int, depth as int, in_string, escape) == None::<int>);
    output.to_owned()
}

} // verus!
