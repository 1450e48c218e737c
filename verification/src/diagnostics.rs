//! Machine-readable structured diagnostics.
//!
//! Every compiler error is reported as a [`Diagnostic`] with a stable short
//! `code` per error category, a `phase`, a human `message`, and, where known, a
//! source location and the enclosing `function`. The output is a JSON array.
//! Consumers must ignore unknown fields and tolerate `null`.

use vstd::prelude::*;
use vstd::string::*;

use crate::ast::Span;
use crate::text::{
    begins, chars_of, contains_text, dec, fill1, find_char, find_from, first_index, fmt, join,
    join_strings, occurs, occurs_at, put1, starts_with, str_eq, string_of, usize_text, views,
};

pub mod codes;
pub mod embedded;

verus! {

/// One structured compiler diagnostic.
#[derive(Debug, Clone, PartialEq)]
pub struct Diagnostic {
    /// `"error"` or `"warning"`.
    pub severity: &'static str,
    /// The compiler phase that produced this.
    pub phase: &'static str,
    /// A stable short code identifying the error category (e.g. `"E0201"`).
    pub code: &'static str,
    /// Human-readable message.
    pub message: String,
    /// 1-based source line, if known.
    pub line: Option<usize>,
    /// 1-based column, if known.
    pub col: Option<usize>,
    /// 1-based end line of the offending expression's span, if known.
    pub end_line: Option<usize>,
    /// 1-based end column of the offending expression's span, if known.
    pub end_col: Option<usize>,
    /// Enclosing function name, if known.
    pub function: Option<String>,
}

/// A diagnostic, as a model.
pub struct DiagV {
    pub severity: Seq<char>,
    pub phase: Seq<char>,
    pub code: Seq<char>,
    pub message: Seq<char>,
    pub line: Option<usize>,
    pub col: Option<usize>,
    pub end_line: Option<usize>,
    pub end_col: Option<usize>,
    pub function: Option<Seq<char>>,
}

/// The contents of an optional string.
pub open spec fn opt_view(s: Option<String>) -> Option<Seq<char>> {
    match s {
        Some(x) => Some(x@),
        None => None,
    }
}

impl Diagnostic {
    /// The diagnostic's model.
    pub open spec fn view(&self) -> DiagV {
        DiagV {
            severity: self.severity@,
            phase: self.phase@,
            code: self.code@,
            message: self.message@,
            line: self.line,
            col: self.col,
            end_line: self.end_line,
            end_col: self.end_col,
            function: opt_view(self.function),
        }
    }

    /// Build an error-severity diagnostic: the message decides the code and,
    /// for cross-cutting categories, the phase; the enclosing function and the
    /// source line are read from the message where they are embedded there.
    pub fn error(phase: &'static str, message: String) -> (r: Diagnostic)
        ensures
            r@ == (DiagV {
                severity: "error"@,
                phase: classified(phase@, message@).0,
                code: classified(phase@, message@).1,
                message: message@,
                line: embedded_line(message@),
                col: None,
                end_line: None,
                end_col: None,
                function: embedded_function(message@),
            }),
    {
        let function: Option<String> = extract_function(message.as_str());
        let line: Option<usize> = extract_line(message.as_str());
        let (phase, code) = reclassify(phase, message.as_str());
        Diagnostic {
            severity: "error",
            phase,
            code,
            message,
            line,
            col: None,
            end_line: None,
            end_col: None,
            function,
        }
    }

    /// Build a warning-severity diagnostic with a known code and location.
    pub fn warning(code: &'static str, message: String, span: Span, function: Option<String>) -> (r:
        Diagnostic)
        ensures
            r@ == located(
                (DiagV {
                    severity: "warning"@,
                    phase: "lint"@,
                    code: code@,
                    message: message@,
                    line: None,
                    col: None,
                    end_line: None,
                    end_col: None,
                    function: opt_view(function),
                }),
                span,
            ),
    {
        let mut d = Diagnostic {
            severity: "warning",
            phase: "lint",
            code,
            message,
            line: None,
            col: None,
            end_line: None,
            end_col: None,
            function,
        };
        d.set_span(span);
        d
    }

    /// Overwrite this diagnostic's location with a precise source span. The
    /// sentinel span is ignored.
    pub fn set_span(&mut self, span: Span)
        ensures
            final(self)@ == located(old(self)@, span),
    {
        if span.is_none() {
            return;
        }
        self.line = Some(span.start_line as usize);
        self.col = Some(span.start_col as usize);
        self.end_line = Some(span.end_line as usize);
        self.end_col = Some(span.end_col as usize);
    }

    /// Serialize this diagnostic as a JSON object.
    pub fn to_json(&self) -> (r: String)
        ensures
            r@ == diag_json(self@),
    {
        let mut s: String = "{".to_owned();
        put1(&mut s, "\"severity\":\"{}\",", self.severity);
        put1(&mut s, "\"phase\":\"{}\",", self.phase);
        put1(&mut s, "\"code\":\"{}\",", self.code);
        let message: String = json_escape(self.message.as_str());
        put1(&mut s, "\"message\":\"{}\",", message.as_str());
        let line: String = json_num_or_null(self.line);
        put1(&mut s, "\"line\":{},", line.as_str());
        let col: String = json_num_or_null(self.col);
        put1(&mut s, "\"col\":{},", col.as_str());
        let end_line: String = json_num_or_null(self.end_line);
        put1(&mut s, "\"end_line\":{},", end_line.as_str());
        let end_col: String = json_num_or_null(self.end_col);
        put1(&mut s, "\"end_col\":{},", end_col.as_str());
        match &self.function {
            Some(f) => {
                let name: String = json_escape(f.as_str());
                put1(&mut s, "\"function\":\"{}\"", name.as_str());
            },
            None => s.append("\"function\":null"),
        }
        s.append("}");
        s
    }
}

/// A diagnostic with the location of a span; the sentinel span changes nothing.
pub open spec fn located(d: DiagV, span: Span) -> DiagV {
    if span.located() {
        DiagV {
            line: Some(span.start_line as usize),
            col: Some(span.start_col as usize),
            end_line: Some(span.end_line as usize),
            end_col: Some(span.end_col as usize),
            ..d
        }
    } else {
        d
    }
}

// ---------------------------------------------------------------------------
// JSON
// ---------------------------------------------------------------------------

/// A number, or `null`.
pub open spec fn num_or_null(n: Option<usize>) -> Seq<char> {
    match n {
        Some(v) => dec(v as int),
        None => "null"@,
    }
}

fn json_num_or_null(n: Option<usize>) -> (r: String)
    ensures
        r@ == num_or_null(n),
{
    match n {
        Some(v) => usize_text(v),
        None => "null".to_owned(),
    }
}

/// A diagnostic as a JSON object.
pub open spec fn diag_json(d: DiagV) -> Seq<char> {
    "{"@ + fmt("\"severity\":\"{}\","@, seq![d.severity]) + fmt(
        "\"phase\":\"{}\","@,
        seq![d.phase],
    ) + fmt("\"code\":\"{}\","@, seq![d.code]) + fmt(
        "\"message\":\"{}\","@,
        seq![json_text(d.message)],
    ) + fmt("\"line\":{},"@, seq![num_or_null(d.line)]) + fmt(
        "\"col\":{},"@,
        seq![num_or_null(d.col)],
    ) + fmt("\"end_line\":{},"@, seq![num_or_null(d.end_line)]) + fmt(
        "\"end_col\":{},"@,
        seq![num_or_null(d.end_col)],
    ) + (match d.function {
        Some(f) => fmt("\"function\":\"{}\""@, seq![json_text(f)]),
        None => "\"function\":null"@,
    }) + "}"@
}

/// A list of texts as a JSON array.
pub open spec fn json_array(parts: Seq<Seq<char>>) -> Seq<char> {
    fmt("[{}]"@, seq![join(parts, ","@)])
}

/// A list of texts as a JSON array.
pub fn array_text(parts: &Vec<String>) -> (r: String)
    ensures
        r@ == json_array(views(parts@)),
{
    let inner: String = join_strings(parts, ",");
    fill1("[{}]", inner.as_str())
}

/// The JSON objects of a list of diagnostics.
pub open spec fn diags_json(ds: Seq<Diagnostic>) -> Seq<Seq<char>> {
    ds.map_values(|d: Diagnostic| diag_json(d@))
}

/// Serialize a slice of diagnostics as a JSON array (the top-level output).
/// `[]` when empty.
pub fn array_to_json(diags: &[Diagnostic]) -> (r: String)
    ensures
        r@ == json_array(diags_json(diags@)),
{
    let mut parts: Vec<String> = Vec::new();
    let mut i: usize = 0;
    while i < diags.len()
        invariant
            i <= diags@.len(),
            parts@.len() == i,
            forall|j: int| 0 <= j < i ==> (#[trigger] parts@[j])@ == diag_json(diags@[j]@),
        decreases diags@.len() - i,
    {
        parts.push(diags[i].to_json());
        i = i + 1;
    }
    assert(views(parts@) =~= diags_json(diags@));
    array_text(&parts)
}

/// A lowercase hexadecimal digit.
pub open spec fn hex(n: int) -> char {
    if n < 10 {
        (0x30 + n) as u8 as char
    } else {
        (0x61 + n - 10) as u8 as char
    }
}

/// A character inside a JSON string: quotes, backslashes and control characters
/// are escaped.
pub open spec fn json_char(c: char) -> Seq<char> {
    if c == '"' {
        "\\\""@
    } else if c == '\\' {
        "\\\\"@
    } else if c == '\n' {
        "\\n"@
    } else if c == '\r' {
        "\\r"@
    } else if c == '\t' {
        "\\t"@
    } else if c == '\u{08}' {
        "\\b"@
    } else if c == '\u{0c}' {
        "\\f"@
    } else if ' ' > c {
        "\\u00"@.push(hex(c as int / 16)).push(hex(c as int % 16))
    } else {
        seq![c]
    }
}

/// A text inside a JSON string.
pub open spec fn json_text(s: Seq<char>) -> Seq<char>
    decreases s.len(),
{
    if s.len() == 0 {
        Seq::empty()
    } else {
        json_text(s.drop_last()) + json_char(s.last())
    }
}

fn hex_of(n: u32) -> (c: char)
    requires
        n < 16,
    ensures
        c == hex(n as int),
{
    if n < 10 {
        (0x30 + n as u8) as char
    } else {
        (0x61 + (n - 10) as u8) as char
    }
}

/// Escape a string for embedding inside a JSON string literal: quotes,
/// backslashes, the standard short escapes, and any remaining control character
/// as a `\u00XX` sequence.
pub fn json_escape(s: &str) -> (r: String)
    ensures
        r@ == json_text(s@),
{
    let cs: Vec<char> = chars_of(s);
    let mut out = String::new();
    let mut i: usize = 0;
    assert(s@.take(0) =~= Seq::empty());
    while i < cs.len()
        invariant
            i <= cs@.len(),
            cs@ == s@,
            out@ == json_text(s@.take(i as int)),
        decreases cs@.len() - i,
    {
        let c: char = cs[i];
        let ghost before = out@;
        if c == '"' {
            out.append("\\\"");
        } else if c == '\\' {
            out.append("\\\\");
        } else if c == '\n' {
            out.append("\\n");
        } else if c == '\r' {
            out.append("\\r");
        } else if c == '\t' {
            out.append("\\t");
        } else if c == '\u{08}' {
            out.append("\\b");
        } else if c == '\u{0c}' {
            out.append("\\f");
        } else if ' ' > c {
            let code: u32 = c as u32;
            proof {
                vstd::utf8::char_u32_cast(c, code);
            }
            out.append("\\u00");
            out.push(hex_of(code / 16));
            out.push(hex_of(code % 16));
        } else {
            out.push(c);
        }
        proof {
            assert(out@ =~= before + json_char(c));
            assert(s@.take(i + 1).drop_last() =~= s@.take(i as int));
        }
        i = i + 1;
    }
    assert(s@.take(i as int) =~= s@);
    out
}

/// Whether a text can stand between the quotes of a JSON string: plain
/// characters other than quotes, backslashes and control characters, and
/// well-formed escapes.
pub open spec fn json_body(t: Seq<char>) -> bool
    decreases t.len(),
{
    if t.len() == 0 {
        true
    } else if t[0] == '\\' {
        if t.len() >= 2 && (t[1] == '"' || t[1] == '\\' || t[1] == 'n' || t[1] == 'r' || t[1] == 't'
            || t[1] == 'b' || t[1] == 'f') {
            json_body(t.skip(2))
        } else if t.len() >= 6 && t[1] == 'u' {
            is_hex(t[2]) && is_hex(t[3]) && is_hex(t[4]) && is_hex(t[5]) && json_body(t.skip(6))
        } else {
            false
        }
    } else {
        t[0] != '"' && t[0] >= ' ' && json_body(t.skip(1))
    }
}

/// Whether a character is a hexadecimal digit.
pub open spec fn is_hex(c: char) -> bool {
    ('0' <= c && c <= '9') || ('a' <= c && c <= 'f')
}

/// Escapes stay valid in front of a valid text.
proof fn lemma_json_char(c: char, rest: Seq<char>)
    requires
        json_body(rest),
    ensures
        json_body(json_char(c) + rest),
{
    reveal_strlit("\\\"");
    reveal_strlit("\\\\");
    reveal_strlit("\\n");
    reveal_strlit("\\r");
    reveal_strlit("\\t");
    reveal_strlit("\\b");
    reveal_strlit("\\f");
    reveal_strlit("\\u00");
    let t = json_char(c) + rest;
    if c == '"' || c == '\\' || c == '\n' || c == '\r' || c == '\t' || c == '\u{08}' || c
        == '\u{0c}' {
        assert(t.skip(2) =~= rest);
    } else if ' ' > c {
        assert(t.skip(6) =~= rest);
        assert(t[4] == hex(c as int / 16));
        assert(t[5] == hex(c as int % 16));
    } else {
        assert(t.skip(1) =~= rest);
    }
}

proof fn lemma_json_append(s: Seq<char>, rest: Seq<char>)
    requires
        json_body(rest),
    ensures
        json_body(json_text(s) + rest),
    decreases s.len(),
{
    if s.len() == 0 {
        assert(json_text(s) + rest =~= rest);
    } else {
        lemma_json_char(s.last(), rest);
        lemma_json_append(s.drop_last(), json_char(s.last()) + rest);
        assert(json_text(s) + rest =~= json_text(s.drop_last()) + (json_char(s.last()) + rest));
    }
}

/// Escaping produces valid JSON for any input.
pub proof fn escaped_is_valid(s: Seq<char>)
    ensures
        json_body(json_text(s)),
{
    lemma_json_append(s, Seq::empty());
    assert(json_text(s) + Seq::empty() =~= json_text(s));
}

/// The value of a hexadecimal digit.
pub open spec fn hex_value(c: char) -> int {
    if '0' <= c && c <= '9' {
        c as int - 0x30
    } else {
        c as int - 0x61 + 10
    }
}

/// What a JSON string with the body `t` stands for; nothing if `t` is no body. The
/// escapes are the short ones and those of a single character.
pub open spec fn json_value(t: Seq<char>) -> Option<Seq<char>>
    decreases t.len(),
{
    if t.len() == 0 {
        Some(Seq::empty())
    } else if t[0] == '\\' {
        if t.len() >= 2 && short_escape(t[1]) is Some {
            match json_value(t.skip(2)) {
                Some(r) => Some(seq![short_escape(t[1])->0] + r),
                None => None,
            }
        } else if t.len() >= 6 && t[1] == 'u' && is_hex(t[2]) && is_hex(t[3]) && is_hex(t[4])
            && is_hex(t[5]) {
            let n = 0x1000 * hex_value(t[2]) + 0x100 * hex_value(t[3]) + 0x10 * hex_value(t[4])
                + hex_value(t[5]);
            match json_value(t.skip(6)) {
                Some(r) => Some(seq![n as char] + r),
                None => None,
            }
        } else {
            None
        }
    } else if t[0] == '"' || ' ' > t[0] {
        None
    } else {
        match json_value(t.skip(1)) {
            Some(r) => Some(seq![t[0]] + r),
            None => None,
        }
    }
}

/// The character of a short escape, by the character behind the backslash.
pub open spec fn short_escape(c: char) -> Option<char> {
    if c == '"' || c == '\\' {
        Some(c)
    } else if c == 'n' {
        Some('\n')
    } else if c == 'r' {
        Some('\r')
    } else if c == 't' {
        Some('\t')
    } else if c == 'b' {
        Some('\u{08}')
    } else if c == 'f' {
        Some('\u{0c}')
    } else {
        None
    }
}

proof fn lemma_json_reads(c: char, rest: Seq<char>)
    ensures
        json_value(json_char(c) + rest) == match json_value(rest) {
            Some(r) => Some(seq![c] + r),
            None => None,
        },
{
    reveal_strlit("\\\"");
    reveal_strlit("\\\\");
    reveal_strlit("\\n");
    reveal_strlit("\\r");
    reveal_strlit("\\t");
    reveal_strlit("\\b");
    reveal_strlit("\\f");
    reveal_strlit("\\u00");
    let t = json_char(c) + rest;
    if c == '"' || c == '\\' || c == '\n' || c == '\r' || c == '\t' || c == '\u{08}' || c
        == '\u{0c}' {
        assert(t.skip(2) =~= rest);
        assert(t[0] == '\\');
        assert(short_escape(t[1]) == Some(c));
    } else if ' ' > c {
        assert(t.skip(6) =~= rest);
        assert(t[0] == '\\' && t[1] == 'u' && t[2] == '0' && t[3] == '0');
        assert(t[4] == hex(c as int / 16));
        assert(t[5] == hex(c as int % 16));
        assert(hex_value(t[4]) == c as int / 16);
        assert(hex_value(t[5]) == c as int % 16);
        assert(0x1000 * hex_value(t[2]) + 0x100 * hex_value(t[3]) + 0x10 * hex_value(t[4])
            + hex_value(t[5]) == c as int);
    } else {
        assert(t.skip(1) =~= rest);
    }
}

proof fn lemma_json_value(s: Seq<char>, rest: Seq<char>)
    ensures
        json_value(json_text(s) + rest) == match json_value(rest) {
            Some(r) => Some(s + r),
            None => None,
        },
    decreases s.len(),
{
    if s.len() == 0 {
        assert(json_text(s) + rest =~= rest);
        if let Some(r) = json_value(rest) {
            assert(s + r =~= r);
        }
    } else {
        let more = json_char(s.last()) + rest;
        lemma_json_reads(s.last(), rest);
        lemma_json_value(s.drop_last(), more);
        assert(json_text(s) + rest =~= json_text(s.drop_last()) + more);
        if let Some(r) = json_value(rest) {
            assert(s.drop_last() + (seq![s.last()] + r) =~= s + r);
        }
    }
}

/// An escaped text reads back as the text itself, whatever it holds.
pub proof fn escaped_reads_back(s: Seq<char>)
    ensures
        json_value(json_text(s)) == Some(s),
{
    lemma_json_value(s, Seq::empty());
    assert(json_text(s) + Seq::empty() =~= json_text(s));
    assert(s + Seq::<char>::empty() =~= s);
}

/// Escaping goes character by character: a text in two parts is escaped part by
/// part.
pub proof fn escaping_distributes(a: Seq<char>, b: Seq<char>)
    ensures
        json_text(a + b) == json_text(a) + json_text(b),
    decreases b.len(),
{
    if b.len() == 0 {
        assert(a + b =~= a);
        assert(json_text(a) + json_text(b) =~= json_text(a));
    } else {
        escaping_distributes(a, b.drop_last());
        assert((a + b).drop_last() =~= a + b.drop_last());
        assert(json_text(a + b) =~= json_text(a) + json_text(b));
    }
}

proof fn lemma_json_char_printable(c: char)
    ensures
        forall|k: int| 0 <= k < json_char(c).len() ==> #[trigger] json_char(c)[k] >= ' ',
{
    reveal_strlit("\\\"");
    reveal_strlit("\\\\");
    reveal_strlit("\\n");
    reveal_strlit("\\r");
    reveal_strlit("\\t");
    reveal_strlit("\\b");
    reveal_strlit("\\f");
    reveal_strlit("\\u00");
    let t = json_char(c);
    if t.len() == 6 {
        assert(t[0] >= ' ' && t[1] >= ' ' && t[2] >= ' ' && t[3] >= ' ');
        assert(t[4] == hex(c as int / 16));
        assert(t[5] == hex(c as int % 16));
    }
}

/// An escaped text holds no control characters.
pub proof fn escaped_is_printable(s: Seq<char>)
    ensures
        forall|i: int| 0 <= i < json_text(s).len() ==> #[trigger] json_text(s)[i] >= ' ',
    decreases s.len(),
{
    if s.len() > 0 {
        escaped_is_printable(s.drop_last());
        let before = json_text(s.drop_last());
        let c = json_char(s.last());
        lemma_json_char_printable(s.last());
        assert forall|i: int| 0 <= i < json_text(s).len() implies #[trigger] json_text(s)[i]
            >= ' ' by {
            if i >= before.len() {
                assert(json_text(s)[i] == c[i - before.len()]);
            } else {
                assert(json_text(s)[i] == before[i]);
            }
        }
    }
}

// ---------------------------------------------------------------------------
// What a message embeds
// ---------------------------------------------------------------------------

/// The text between the backtick at `i` and the next one.
pub open spec fn backticked(m: Seq<char>, i: int) -> Option<Seq<char>> {
    if 0 <= i < m.len() && m[i] == '`' {
        let rest = m.skip(i + 1);
        let end = first_index(rest, '`');
        if end < rest.len() {
            Some(rest.take(end))
        } else {
            None
        }
    } else {
        None
    }
}

/// The text between the backtick at `i` and the next one.
fn backtick_at(m: &Vec<char>, i: usize) -> (r: Option<String>)
    ensures
        opt_view(r) == backticked(m@, i as int),
{
    if i < m.len() && m[i] == '`' {
        let end: usize = find_char(m, i + 1, '`');
        if end < m.len() {
            let s: String = string_of(m, i + 1, end);
            proof {
                let rest = m@.skip(i + 1);
                assert(rest.take(end - (i + 1)) =~= m@.subrange(i + 1, end as int));
            }
            return Some(s);
        }
    }
    None
}

/// The enclosing function that a message names, in one of these shapes:
/// `` cannot prove `NAME` ``, `` type parameter `P` of `NAME` ``,
/// `` function `NAME` ``.
pub open spec fn embedded_function(m: Seq<char>) -> Option<Seq<char>> {
    if begins(m, "cannot prove `"@) {
        backticked(m, "cannot prove "@.len() as int)
    } else if begins(m, "type parameter `"@) {
        if occurs(m, "` of `"@) {
            backticked(m, first_occurrence(m, "` of `"@) + "` of "@.len())
        } else {
            None
        }
    } else if begins(m, "function `"@) {
        backticked(m, "function "@.len() as int)
    } else {
        None
    }
}

/// The first position of `t` in `m`.
pub open spec fn first_occurrence(m: Seq<char>, t: Seq<char>) -> int {
    choose|i: int| #[trigger]
        occurs_at(m, t, i) && forall|j: int| 0 <= j < i ==> !#[trigger] occurs_at(m, t, j)
}

/// If the message embeds an enclosing function name, return it.
fn extract_function(message: &str) -> (r: Option<String>)
    ensures
        opt_view(r) == embedded_function(message@),
{
    let m: Vec<char> = chars_of(message);
    proof {
        reveal_strlit("cannot prove ");
        reveal_strlit("` of ");
        reveal_strlit("function ");
    }
    if starts_with(message, "cannot prove `") {
        return backtick_at(&m, 13);
    }
    if starts_with(message, "type parameter `") {
        let of: Vec<char> = chars_of("` of `");
        match find_from(&m, &of, 0) {
            Some(i) => {
                proof {
                    let j = first_occurrence(m@, of@);
                    if j < i {
                        assert(!occurs_at(m@, of@, j));
                    } else if i < j {
                        assert(!occurs_at(m@, of@, i as int));
                    }
                    reveal_strlit("` of `");
                }
                return backtick_at(&m, i + 5);
            },
            None => {
                proof {
                    if occurs(m@, of@) {
                        let k = choose|k: int| #[trigger] occurs_at(m@, of@, k);
                        assert(!occurs_at(m@, of@, k));
                    }
                }
                return None;
            },
        }
    }
    if starts_with(message, "function `") {
        return backtick_at(&m, 9);
    }
    None
}

/// Whether a character is an ASCII digit.
pub open spec fn is_digit(c: char) -> bool {
    '0' <= c && c <= '9'
}

/// The number of digits that `s` starts with.
pub open spec fn digit_run(s: Seq<char>) -> nat
    decreases s.len(),
{
    if s.len() == 0 || !is_digit(s[0]) {
        0
    } else {
        1 + digit_run(s.drop_first())
    }
}

/// The number that a run of digits spells.
pub open spec fn digits_value(s: Seq<char>) -> nat
    decreases s.len(),
{
    if s.len() == 0 {
        0
    } else {
        digits_value(s.drop_last()) * 10 + (s.last() as nat - '0' as nat) as nat
    }
}

/// The source line that a message starts with, as `line N:`. A number that fits no
/// `usize` is no line.
pub open spec fn embedded_line(m: Seq<char>) -> Option<usize> {
    if begins(m, "line "@) {
        let rest = m.skip("line "@.len() as int);
        let end = digit_run(rest);
        let n = digits_value(rest.take(end as int));
        if 0 < end < rest.len() && rest[end as int] == ':' && n <= usize::MAX {
            Some(n as usize)
        } else {
            None
        }
    } else {
        None
    }
}

proof fn lemma_digit_run(s: Seq<char>)
    ensures
        digit_run(s) <= s.len(),
        forall|i: int| 0 <= i < digit_run(s) ==> is_digit(#[trigger] s[i]),
        digit_run(s) < s.len() ==> !is_digit(s[digit_run(s) as int]),
    decreases s.len(),
{
    if s.len() > 0 && is_digit(s[0]) {
        lemma_digit_run(s.drop_first());
        let t = s.drop_first();
        assert forall|i: int| 0 <= i < digit_run(s) implies is_digit(#[trigger] s[i]) by {
            if i > 0 {
                assert(s[i] == t[i - 1]);
            }
        }
    }
}

proof fn lemma_value_grows(s: Seq<char>, i: int, n: int)
    requires
        0 <= i <= n <= s.len(),
    ensures
        digits_value(s.take(i)) <= digits_value(s.take(n)),
    decreases n - i,
{
    if i < n {
        lemma_value_grows(s, i, n - 1);
        assert(s.take(n).drop_last() =~= s.take(n - 1));
    }
}

/// Extract a 1-based source line from a `line N: ...` prefix; `None` if absent.
fn extract_line(message: &str) -> (r: Option<usize>)
    ensures
        r == embedded_line(message@),
{
    if !starts_with(message, "line ") {
        return None;
    }
    let m: Vec<char> = chars_of(message);
    proof {
        reveal_strlit("line ");
    }
    let ghost rest = m@.skip(5);
    let mut value: usize = 0;
    let mut fits: bool = true;
    let mut i: usize = 5;
    proof {
        lemma_digit_run(rest);
        assert(rest.take(0) =~= Seq::empty());
    }
    while i < m.len() && m[i] >= '0' && m[i] <= '9'
        invariant
            5 <= i <= m@.len(),
            rest == m@.skip(5),
            i - 5 <= digit_run(rest),
            digit_run(rest) <= rest.len(),
            digit_run(rest) < rest.len() ==> !is_digit(rest[digit_run(rest) as int]),
            forall|j: int| 0 <= j < digit_run(rest) ==> is_digit(#[trigger] rest[j]),
            fits ==> value == digits_value(rest.take(i - 5)),
            !fits ==> digits_value(rest.take(i - 5)) > usize::MAX,
        decreases m@.len() - i,
    {
        let d: usize = m[i] as usize - '0' as usize;
        proof {
            assert(rest[i - 5] == m@[i as int]);
            assert(rest.take(i - 4).drop_last() =~= rest.take(i - 5));
            if i - 5 == digit_run(rest) {
                assert(!is_digit(rest[i - 5]));
            }
        }
        if fits {
            if value > (usize::MAX - d) / 10 {
                fits = false;
                assert(value * 10 + d > usize::MAX);
            } else {
                value = value * 10 + d;
            }
        }
        i = i + 1;
    }
    proof {
        if i < m@.len() {
            assert(rest[i - 5] == m@[i as int]);
            if ((i - 5) as nat) < digit_run(rest) {
                assert(is_digit(rest[i - 5]));
            }
        }
        assert(i - 5 == digit_run(rest));
    }
    if i < m.len() && i > 5 && m[i] == ':' && fits {
        Some(value)
    } else {
        None
    }
}

// ---------------------------------------------------------------------------
// Classification
// ---------------------------------------------------------------------------

/// File and stream failures, which are not a compiler phase.
pub open spec fn io_message(m: Seq<char>) -> bool {
    begins(m, "cannot read "@)
}

fn is_io_message(m: &str) -> (r: bool)
    ensures
        r == io_message(m@),
{
    starts_with(m, "cannot read ")
}

/// Messages of the trait and impl checker: phrasings that it alone emits, never
/// the keyword in isolation, which a parse error may list as expected.
pub open spec fn trait_message(m: Seq<char>) -> bool {
    occurs(m, "the interface declares"@)
        || occurs(m, "impl `"@)
        || occurs(m, "duplicate interface `"@)
        || (occurs(m, "interface `"@) && occurs(m, " method `"@))
        || occurs(m, "requires its type parameter"@)
        || occurs(m, "is not bounded by"@)
        || occurs(m, "trait method"@)
        || occurs(m, "trait bound"@)
}

fn is_trait_message(m: &str) -> (r: bool)
    ensures
        r == trait_message(m@),
{
    contains_text(m, "the interface declares")
        || contains_text(m, "impl `")
        || contains_text(m, "duplicate interface `")
        || (contains_text(m, "interface `") && contains_text(m, " method `"))
        || contains_text(m, "requires its type parameter")
        || contains_text(m, "is not bounded by")
        || contains_text(m, "trait method")
        || contains_text(m, "trait bound")
}

/// The canonical name of a phase.
pub open spec fn canonical_phase(phase: Seq<char>) -> Seq<char> {
    if phase == "lex"@ {
        "lex"@
    } else if phase == "parse"@ {
        "parse"@
    } else if phase == "shape"@ {
        "shape"@
    } else if phase == "purity"@ {
        "purity"@
    } else if phase == "exhaustiveness"@ {
        "exhaustiveness"@
    } else if phase == "io"@ {
        "io"@
    } else {
        "type"@
    }
}

fn static_phase(phase: &str) -> (r: &'static str)
    ensures
        r@ == canonical_phase(phase@),
{
    if str_eq(phase, "lex") {
        "lex"
    } else if str_eq(phase, "parse") {
        "parse"
    } else if str_eq(phase, "shape") {
        "shape"
    } else if str_eq(phase, "purity") {
        "purity"
    } else if str_eq(phase, "exhaustiveness") {
        "exhaustiveness"
    } else if str_eq(phase, "io") {
        "io"
    } else {
        "type"
    }
}

/// The code of a message by its phase.
pub open spec fn phase_code(phase: Seq<char>, m: Seq<char>) -> Seq<char> {
    if phase == "lex"@ {
        "E0001"@
    } else if phase == "parse"@ {
        "E0100"@
    } else if phase == "shape"@ {
        "E0300"@
    } else if phase == "purity"@ {
        "E0210"@
    } else if phase == "exhaustiveness"@ {
        "E0203"@
    } else if phase == "io"@ {
        "E0002"@
    } else if phase == "type"@ {
        type_code(m)
    } else {
        "E0900"@
    }
}

fn classify_by_phase(phase: &str, message: &str) -> (r: &'static str)
    ensures
        r@ == phase_code(phase@, message@),
{
    if str_eq(phase, "lex") {
        "E0001"
    } else if str_eq(phase, "parse") {
        "E0100"
    } else if str_eq(phase, "shape") {
        "E0300"
    } else if str_eq(phase, "purity") {
        "E0210"
    } else if str_eq(phase, "exhaustiveness") {
        "E0203"
    } else if str_eq(phase, "io") {
        "E0002"
    } else if str_eq(phase, "type") {
        classify_type(message)
    } else {
        "E0900"
    }
}

/// The code of a message of the type phase: purity, exhaustiveness, unknown
/// names, unknown types, unused type parameters, arity and fields, traits,
/// redefinitions, and otherwise a type mismatch. The first that applies counts.
pub open spec fn type_code(m: Seq<char>) -> Seq<char> {
    if occurs(m, "is declared `pure` but performs IO"@)
        || begins(m, "cannot prove `"@) {
        "E0210"@
    } else if occurs(m, "non-exhaustive match"@) {
        "E0203"@
    } else if occurs(m, "unbound variable"@)
        || occurs(m, "unknown function"@)
        || occurs(m, "unknown constructor"@)
        || occurs(m, "unknown record type"@) {
        "E0200"@
    } else if occurs(m, "unknown type"@)
        || occurs(m, "unknown type parameter"@) {
        "E0204"@
    } else if occurs(m, "is unused (cannot be inferred)"@) {
        "E0205"@
    } else if (occurs(m, "expects"@) && (occurs(m, "argument(s)"@) || occurs(m, "field(s)"@)))
        || (occurs(m, "takes"@) && occurs(m, "parameter(s)"@))
        || occurs(m, "type argument(s)"@)
        || occurs(m, "element tuple pattern cannot match"@)
        || occurs(m, "missing field `"@)
        || occurs(m, "duplicate field `"@)
        || occurs(m, "has no field `"@) {
        "E0202"@
    } else if occurs(m, "requires its type parameter"@)
        || occurs(m, "is not bounded by"@)
        || occurs(m, "trait method"@) {
        "E0206"@
    } else if begins(m, "duplicate "@)
        || occurs(m, "cannot redefine built-in"@) {
        "E0207"@
    } else {
        "E0201"@
    }
}

fn classify_type(m: &str) -> (r: &'static str)
    ensures
        r@ == type_code(m@),
{
    if contains_text(m, "is declared `pure` but performs IO")
        || starts_with(m, "cannot prove `") {
        "E0210"
    } else if contains_text(m, "non-exhaustive match") {
        "E0203"
    } else if contains_text(m, "unbound variable")
        || contains_text(m, "unknown function")
        || contains_text(m, "unknown constructor")
        || contains_text(m, "unknown record type") {
        "E0200"
    } else if contains_text(m, "unknown type")
        || contains_text(m, "unknown type parameter") {
        "E0204"
    } else if contains_text(m, "is unused (cannot be inferred)") {
        "E0205"
    } else if (contains_text(m, "expects") && (contains_text(m, "argument(s)") || contains_text(m, "field(s)")))
        || (contains_text(m, "takes") && contains_text(m, "parameter(s)"))
        || contains_text(m, "type argument(s)")
        || contains_text(m, "element tuple pattern cannot match")
        || contains_text(m, "missing field `")
        || contains_text(m, "duplicate field `")
        || contains_text(m, "has no field `") {
        "E0202"
    } else if contains_text(m, "requires its type parameter")
        || contains_text(m, "is not bounded by")
        || contains_text(m, "trait method") {
        "E0206"
    } else if starts_with(m, "duplicate ")
        || contains_text(m, "cannot redefine built-in") {
        "E0207"
    } else {
        "E0201"
    }
}

/// The documented phase and code of a raised message: file failures and trait
/// messages are reported as such, whatever phase raised them.
pub open spec fn classified(phase: Seq<char>, m: Seq<char>) -> (Seq<char>, Seq<char>) {
    if io_message(m) {
        ("io"@, "E0002"@)
    } else if trait_message(m) {
        ("type"@, "E0206"@)
    } else {
        (canonical_phase(phase), phase_code(phase, m))
    }
}

fn reclassify(phase: &str, message: &str) -> (r: (&'static str, &'static str))
    ensures
        (r.0@, r.1@) == classified(phase@, message@),
{
    if is_io_message(message) {
        return ("io", "E0002");
    }
    if is_trait_message(message) {
        return ("type", "E0206");
    }
    (static_phase(phase), classify_by_phase(phase, message))
}

/// Classify a `(phase, message)` pair into a stable category `code`.
pub fn classify(phase: &str, message: &str) -> (r: &'static str)
    ensures
        r@ == classified(phase@, message@).1,
{
    reclassify(phase, message).1
}

// ---------------------------------------------------------------------------
// Laws
// ---------------------------------------------------------------------------

/// The phases that a diagnostic can carry.
pub open spec fn known_phase(p: Seq<char>) -> bool {
    p == "lex"@ || p == "parse"@ || p == "shape"@ || p == "purity"@ || p == "exhaustiveness"@ || p
        == "io"@ || p == "type"@
}

/// The codes that a diagnostic can carry.
pub open spec fn known_code(c: Seq<char>) -> bool {
    c == "E0001"@ || c == "E0002"@ || c == "E0100"@ || c == "E0200"@ || c == "E0201"@ || c
        == "E0202"@ || c == "E0203"@ || c == "E0204"@ || c == "E0205"@ || c == "E0206"@ || c
        == "E0207"@ || c == "E0210"@ || c == "E0300"@ || c == "E0900"@
}

/// Every error has a phase and a code of the documented lists, whatever its message
/// and the phase that raised it. A trait message is a type error, and a failure to
/// read a file an input error, in every phase.
pub proof fn classification_is_total(phase: Seq<char>, m: Seq<char>)
    ensures
        known_phase(classified(phase, m).0),
        known_code(classified(phase, m).1),
        io_message(m) ==> classified(phase, m) == ("io"@, "E0002"@),
        trait_message(m) && !io_message(m) ==> classified(phase, m) == ("type"@, "E0206"@),
{
}

} // verus!
