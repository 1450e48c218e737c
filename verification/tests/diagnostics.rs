//! Structured diagnostics.

use aria::ast::Span;
use aria::diagnostics::{array_to_json, classify, json_escape, Diagnostic};

#[test]
fn empty_array_is_brackets() {
    assert_eq!(array_to_json(&[]), "[]");
}

#[test]
fn escape_quotes_newlines_backslashes_controls() {
    let s = "a\"b\\c\nd\te\r\u{0}f";
    let e = json_escape(s);
    assert_eq!(e, "a\\\"b\\\\c\\nd\\te\\r\\u0000f");
}

#[test]
fn single_diag_is_well_formed_object() {
    let d = Diagnostic::error("type", "function `f`: cannot compare Int and String".into());
    let j = d.to_json();
    assert!(j.contains("\"severity\":\"error\""));
    assert!(j.contains("\"phase\":\"type\""));
    assert!(j.contains("\"code\":\"E0201\""));
    assert!(j.contains("\"function\":\"f\""));
    assert!(j.contains("\"line\":null"));
    assert!(j.contains("\"col\":null"));
    // Braces balance.
    assert!(j.starts_with('{') && j.ends_with('}'));
}

#[test]
fn array_separates_with_commas_no_trailing() {
    let d1 = Diagnostic::error("lex", "line 3: unexpected character `@`".into());
    let d2 = Diagnostic::error("parse", "line 5: expected RParen, found Eof".into());
    let arr = array_to_json(&[d1, d2]);
    assert!(arr.starts_with("[{"));
    assert!(arr.ends_with("}]"));
    assert!(arr.contains("},{"));
    assert!(!arr.contains(",]"));
}

#[test]
fn line_extracted_from_parse_lex() {
    let d = Diagnostic::error("parse", "line 7: unexpected token".into());
    assert_eq!(d.line, Some(7));
    assert_eq!(d.code, "E0100");
    let l = Diagnostic::error("lex", "line 2: unexpected character `@`".into());
    assert_eq!(l.line, Some(2));
    assert_eq!(l.code, "E0001");
}

#[test]
fn function_extracted_from_type_messages() {
    let d = Diagnostic::error(
        "type",
        "function `bad_compare`: cannot compare Int and String".into(),
    );
    assert_eq!(d.function.as_deref(), Some("bad_compare"));
    let r = Diagnostic::error(
        "type",
        "function `wrong_return`: body has type Bool but return type is Int (expected Bool, found Int)".into(),
    );
    assert_eq!(r.function.as_deref(), Some("wrong_return"));
    assert_eq!(r.code, "E0201");
}

#[test]
fn function_extracted_from_pure_witness() {
    let d = Diagnostic::error(
        "purity",
        "cannot prove `run` pure: it calls a function value `f` whose effects are unknown".into(),
    );
    assert_eq!(d.function.as_deref(), Some("run"));
    assert_eq!(d.code, "E0210");
}

#[test]
fn classifier_maps_representative_messages() {
    assert_eq!(classify("lex", "line 1: bad"), "E0001");
    assert_eq!(classify("parse", "line 1: expected"), "E0100");
    assert_eq!(classify("shape", "matmul inner dimensions"), "E0300");
    assert_eq!(
        classify("type", "function `c`: non-exhaustive match on Color: missing case `Blue`"),
        "E0203"
    );
    assert_eq!(classify("exhaustiveness", "anything"), "E0203");
    assert_eq!(classify("type", "unbound variable `x`"), "E0200");
    assert_eq!(classify("type", "function `f`: unknown function `g`"), "E0200");
    assert_eq!(
        classify("type", "function `f` return type: unknown type `Foo`"),
        "E0204"
    );
    assert_eq!(
        classify("type", "type parameter `T` of `f` is unused (cannot be inferred)"),
        "E0205"
    );
    assert_eq!(
        classify("type", "function `f` expects 2 argument(s), got 3"),
        "E0202"
    );
    assert_eq!(
        classify("type", "function `f`: cannot compare Int and String"),
        "E0201"
    );
    assert_eq!(classify("type", "duplicate function `f`"), "E0207");
    assert_eq!(
        classify("purity", "function `g` is declared `pure` but performs IO (calls `print_int`)"),
        "E0210"
    );
}

#[test]
fn record_field_shape_errors_are_e0202() {
    // Record named-field shape errors live in the constructor/record-fields
    // bucket (E0202), NOT the type-mismatch family (E0201).
    for m in [
        "record `Point`: missing field `y`",
        "record `Point`: duplicate field `x`",
        "record `Point` has no field `z`",
        "type `Point` has no field `z`",
        "record update: duplicate field `x`",
    ] {
        let d = Diagnostic::error("type", m.into());
        assert_eq!(d.code, "E0202", "expected E0202 for `{}`, got {}", m, d.code);
        assert_eq!(d.phase, "type");
    }
}

#[test]
fn interface_impl_arity_is_type_phase_e0206_even_via_parse() {
    // The interface/impl method-arity mismatch is RAISED during parser-time
    // trait lowering (phase `parse`), but must be reported as a trait/bound
    // error: phase `type`, code E0206.
    let m = "impl `Show` for `Point`: method `show` takes 2 parameter(s) but the interface declares 1";
    let d = Diagnostic::error("parse", m.into());
    assert_eq!(d.phase, "type", "interface arity should be type phase");
    assert_eq!(d.code, "E0206", "interface arity should be E0206");
}

#[test]
fn parse_error_listing_interface_keyword_is_not_e0206() {
    // A structural PARSE error whose message merely LISTS `interface` as one of
    // the expected keywords (e.g. a file containing just `x`) must stay phase
    // `parse` / E0100 — it is NOT a trait/impl semantic error. (Regression for
    // the `is_trait_message` bare-"interface" false positive.)
    let m = "line 1: expected `fn`, `pure`, `type`, `interface`, or `impl`, found Ident(\"x\")";
    let d = Diagnostic::error("parse", m.into());
    assert_eq!(d.phase, "parse", "must remain a parse error: {}", m);
    assert_eq!(d.code, "E0100", "must remain E0100: {}", m);
}

#[test]
fn malformed_interface_declaration_is_a_parse_error_not_e0206() {
    // A structural complaint about a malformed interface DECLARATION
    // (`interface `Show` must declare ...`) is a parse-phase error, not a
    // trait-resolution semantic error. Only a complaint about a specific
    // interface METHOD (`interface `Show` method `show`: ...`) is E0206.
    let decl = "line 1: interface `Show` must declare exactly one type parameter (the implementing type), e.g. `interface Show[T]`";
    let d = Diagnostic::error("parse", decl.into());
    assert_eq!(d.phase, "parse", "interface decl shape is a parse error");
    assert_eq!(d.code, "E0100");

    // ...whereas a method-level interface complaint IS a trait error.
    let method = "interface `Show` method `show` must take a `self` receiver parameter";
    let d2 = Diagnostic::error("parse", method.into());
    assert_eq!(d2.phase, "type", "interface method error is a trait error");
    assert_eq!(d2.code, "E0206");
}

#[test]
fn file_read_error_is_io_phase_e0002() {
    // A missing/unreadable source file is an I/O failure, not a lex error.
    let d = Diagnostic::error("lex", "cannot read foo.aria: No such file or directory (os error 2)".into());
    assert_eq!(d.phase, "io", "file read error should be io phase");
    assert_eq!(d.code, "E0002", "file read error should be E0002");
}

#[test]
fn declaration_level_errors_have_null_function() {
    // Declaration-level errors legitimately carry `function: null` (the doc's
    // softened wording): they are not scoped to a function body.
    for m in [
        "duplicate type `Point`",
        "duplicate function `f`",
        "cannot redefine built-in `print_int`",
    ] {
        let d = Diagnostic::error("type", m.into());
        assert!(d.function.is_none(), "`{}` should have function: null", m);
    }
}

#[test]
fn object_text_is_exact() {
    let mut d = Diagnostic::error("type", "function `f`: unknown function `g`".into());
    d.set_span(Span { start_line: 3, start_col: 5, end_line: 3, end_col: 9 });
    assert_eq!(
        d.to_json(),
        "{\"severity\":\"error\",\"phase\":\"type\",\"code\":\"E0200\",\"message\":\"function `f`: unknown function `g`\",\"line\":3,\"col\":5,\"end_line\":3,\"end_col\":9,\"function\":\"f\"}"
    );
    // The sentinel span changes nothing.
    d.set_span(Span::none());
    assert_eq!((d.line, d.end_col), (Some(3), Some(9)));
    let w = Diagnostic::warning("W0001", "m".into(), Span::none(), None);
    assert_eq!((w.severity, w.phase, w.code, w.line), ("warning", "lint", "W0001", None));
    assert!(w.to_json().ends_with("\"function\":null}"));
}

#[test]
fn escapes_every_control_character() {
    assert_eq!(json_escape("\u{1}\u{1f}\u{7f}é/"), "\\u0001\\u001f\u{7f}é/");
}

#[test]
fn escaping_goes_part_by_part() {
    let (a, b) = ("q\"\\", "\n\u{2}z");
    assert_eq!(json_escape(&format!("{}{}", a, b)), json_escape(a) + &json_escape(b));
    assert_eq!(json_escape(a), "q\\\"\\\\");
    assert!(json_escape("\u{8}\u{c}\r\t\u{0}").chars().all(|c| c >= ' '));
}

#[test]
fn only_a_numbered_line_prefix_gives_a_line() {
    let line = |m: &str| Diagnostic::error("parse", m.to_string()).line;
    assert_eq!(line("line 12: expected"), Some(12));
    assert_eq!(line("line 12"), None);
    assert_eq!(line("line 12 is too long"), None);
    assert_eq!(line("line : expected"), None);
    assert_eq!(line("line 0: expected"), Some(0));
    assert_eq!(line("line 99999999999999999999999: expected"), None);
    assert_eq!(line("at line 3: expected"), None);
}
