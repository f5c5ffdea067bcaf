use cargo_what::extract::{parse_message, process_line};
use cargo_what::hole::{Hole, Holes};
use cargo_what::order::sorted_holes;
use cargo_what::pattern::{shape_of_message, Shape};
use cargo_what::render::{body_line_at, render_hole, underline_at, Segment, Tone};
use cargo_what::forward_line;

fn diagnostic(message: &str, file: &str, line: u64, text: &str) -> String {
    format!(
        r#"{{"reason":"compiler-message","message":{{"message":"{}","code":{{"code":"E0277"}},"rendered":"l0\nl1\nl2\nl3\nl4","spans":[{{"file_name":"{}","line_start":{},"text":[{{"text":"{}"}}]}}]}}}}"#,
        message, file, line, text
    )
}

fn feed(lines: &[String]) -> Holes {
    let mut holes = Holes::new();
    for l in lines {
        process_line(&mut holes, l);
    }
    holes
}

fn args_of(h: &Hole) -> Vec<(String, String)> {
    h.args.clone()
}

#[test]
fn scenario_single_concrete_type() {
    let line = r#"{"reason":"compiler-message","message":{"message":"`u8: crate::What`", "code":{"code":"E0277"}, "rendered":"l0\nl1\nl2\nl3\nl4", "spans":[{"file_name":"a.rs","line_start":5,"text":[{"text":"what!(a) "}]}]}}"#;
    let holes = feed(&[line.to_string()]);
    assert_eq!(holes.entries.len(), 1);
    let h = &holes.entries[0];
    assert_eq!(h.file, "a.rs");
    assert_eq!(h.line, 5);
    assert_eq!(h.ty.as_deref(), Some("u8"));
    assert_eq!(h.tr, None);
    assert!(h.args.is_empty());
    assert_eq!(h.context, vec!["l1", "l2", "l3", "l4"]);
}

#[test]
fn scenario_type_and_named_argument() {
    let holes = feed(&[
        diagnostic("`Result<T,E>: crate::What`", "b.rs", 3, "what!(a)"),
        diagnostic("`u8: crate::What_a`", "b.rs", 3, "what!(a)"),
    ]);
    assert_eq!(holes.entries.len(), 1);
    let h = &holes.entries[0];
    assert_eq!(h.ty.as_deref(), Some("Result<T,E>"));
    assert_eq!(args_of(h), vec![("a".to_string(), "u8".to_string())]);
}

#[test]
fn scenario_log_filter() {
    assert!(!forward_line("error: could not compile `x` due to previous error"));
    assert!(forward_line("  --> src/main.rs:3:5"));
    assert!(forward_line("a  b"));
    assert!(!forward_line(""));
    assert!(!forward_line(" "));
    assert!(forward_line("  "));
}

#[test]
fn non_json_lines_are_ignored() {
    let mut holes = Holes::new();
    assert!(!process_line(&mut holes, "Compiling foo v0.1.0"));
    assert!(!process_line(&mut holes, ""));
    assert!(!process_line(&mut holes, "{not json"));
    assert!(parse_message("   {\"reason\":\"compiler-message\"}").is_none());
    assert_eq!(holes.entries.len(), 0);
}

#[test]
fn other_reasons_and_codes_are_ignored() {
    let wrong_code = diagnostic("`u8: crate::What`", "a.rs", 1, "what!()").replace("E0277", "E0308");
    let wrong_reason = diagnostic("`u8: crate::What`", "a.rs", 1, "what!()").replace("compiler-message", "build-finished");
    assert!(parse_message(&wrong_code).is_none());
    assert!(parse_message(&wrong_reason).is_none());
    assert!(parse_message(&diagnostic("`u8: crate::What`", "a.rs", 1, "what!()")).is_some());
    let holes = feed(&[wrong_code, wrong_reason]);
    assert_eq!(holes.entries.len(), 0);
}

#[test]
fn concrete_type_leaves_capability_unset() {
    let holes = feed(&[diagnostic("`std::vec::Vec<u8>: my::What`", "a.rs", 2, "what!()")]);
    assert_eq!(holes.entries[0].ty.as_deref(), Some("std::vec::Vec<u8>"));
    assert_eq!(holes.entries[0].tr, None);
}

#[test]
fn capability_phrasings() {
    let colon = feed(&[diagnostic("the trait bound `crate::WhatTrait: Iterator` is not satisfied", "a.rs", 1, "what!()")]);
    assert_eq!(colon.entries[0].tr.as_deref(), Some("Iterator"));
    assert_eq!(colon.entries[0].ty, None);
    let doesnt = feed(&[diagnostic("`crate::WhatTrait` doesn't implement `Display`", "a.rs", 1, "what!()")]);
    assert_eq!(doesnt.entries[0].tr.as_deref(), Some("Display"));
    assert_eq!(doesnt.entries[0].ty, None);
    let expected = feed(&[diagnostic("expected an `Fn<()>` closure, found `crate::WhatTrait`", "a.rs", 1, "what!()")]);
    assert_eq!(expected.entries[0].tr.as_deref(), Some("Fn<()>"));
    assert_eq!(expected.entries[0].ty, None);
}

#[test]
fn shapes_of_messages() {
    assert!(matches!(shape_of_message("`u8: crate::What`"), Shape::ConcreteType(t) if t == "u8"));
    assert!(matches!(shape_of_message("`u8: crate::What_abc`"), Shape::NamedArgument(n, t) if n == "abc" && t == "u8"));
    assert!(matches!(shape_of_message("`u8: crate::What_0`"), Shape::NamedArgument(n, t) if n == "0" && t == "u8"));
    assert!(matches!(shape_of_message("`i32: crate::What_000`"), Shape::NamedArgument(n, t) if n == "2" && t == "i32"));
    assert!(matches!(shape_of_message("mismatched types"), Shape::NoMatch));
}

#[test]
fn unmatched_message_is_dropped() {
    let holes = feed(&[diagnostic("mismatched types", "a.rs", 1, "what!()")]);
    assert_eq!(holes.entries.len(), 0);
}

fn nested(depth: usize) -> String {
    // the innermost span is the placeholder's own expansion; each layer
    // above it is a macro that wraps the call, the last the literal call
    let mut span = format!(r#"{{"file_name":"src/lib.rs","line_start":{},"text":[{{"text":"what!(@inner)"}}]}}"#, 1000);
    let mut chain = String::new();
    for layer in 0..depth {
        let _ = layer;
        chain = span;
        span = String::new();
        span.push_str(&chain);
    }
    let mut outer = format!(r#"{{"file_name":"src/main.rs","line_start":7,"text":[{{"text":"    what!(x)"}}]}}"#);
    for layer in (0..depth).rev() {
        outer = format!(
            r#"{{"file_name":"src/macros.rs","line_start":{},"text":[{{"text":"inner!($e)"}}],"expansion":{{"span":{}}}}}"#,
            100 + layer,
            outer
        );
    }
    format!(
        r#"{{"reason":"compiler-message","message":{{"message":"`u16: crate::What`","code":{{"code":"E0277"}},"rendered":"e\nc1\nc2","spans":[{}]}}}}"#,
        outer
    )
}

#[test]
fn nested_expansions_resolve_to_the_literal_call() {
    for depth in 0..4 {
        let holes = feed(&[nested(depth)]);
        assert_eq!(holes.entries.len(), 1);
        assert_eq!(holes.entries[0].file, "src/main.rs");
        assert_eq!(holes.entries[0].line, 7);
        assert_eq!(holes.entries[0].ty.as_deref(), Some("u16"));
    }
}

#[test]
fn inner_expansion_marker_is_not_a_call_site() {
    let line = r#"{"reason":"compiler-message","message":{"message":"`u8: crate::What`","code":{"code":"E0277"},"rendered":"e","spans":[{"file_name":"in.rs","line_start":1,"text":[{"text":"what!(@x)"}],"expansion":{"span":{"file_name":"out.rs","line_start":9,"text":[{"text":"what!()"}]}}}]}}"#;
    let holes = feed(&[line.to_string()]);
    assert_eq!(holes.entries[0].file, "out.rs");
    assert_eq!(holes.entries[0].line, 9);
}

#[test]
fn broken_chain_is_dropped() {
    let line = r#"{"reason":"compiler-message","message":{"message":"`u8: crate::What`","code":{"code":"E0277"},"rendered":"e","spans":[{"file_name":"in.rs","line_start":1,"text":[{"text":"other!()"}]}]}}"#;
    let holes = feed(&[line.to_string()]);
    assert_eq!(holes.entries.len(), 0);
}

#[test]
fn three_diagnostics_in_any_order() {
    let t = diagnostic("`usize: crate::What`", "a.rs", 4, "what!(a, b)");
    let a = diagnostic("`usize: crate::What_a`", "a.rs", 4, "what!(a, b)");
    let b = diagnostic("`std::ops::Range<usize>: crate::What_b`", "a.rs", 4, "what!(a, b)");
    let orders = [
        [&t, &a, &b], [&t, &b, &a], [&a, &t, &b], [&a, &b, &t], [&b, &t, &a], [&b, &a, &t],
    ];
    for order in orders.iter() {
        let lines: Vec<String> = order.iter().map(|s| s.to_string()).collect();
        let holes = feed(&lines);
        assert_eq!(holes.entries.len(), 1);
        assert_eq!(holes.entries[0].ty.as_deref(), Some("usize"));
        assert_eq!(holes.entries[0].args.len(), 2);
    }
}

#[test]
fn context_is_kept_from_the_first_diagnostic() {
    let first = diagnostic("`u8: crate::What`", "a.rs", 4, "what!(a)");
    let second = diagnostic("`u8: crate::What_a`", "a.rs", 4, "what!(a)").replace("l0\\nl1", "z0\\nz1");
    let holes = feed(&[first, second]);
    assert_eq!(holes.entries[0].context, vec!["l1", "l2", "l3", "l4"]);
}

#[test]
fn holes_sort_by_file_then_line() {
    let holes = feed(&[
        diagnostic("`u8: crate::What`", "b.rs", 2, "what!()"),
        diagnostic("`u8: crate::What`", "a.rs", 10, "what!()"),
        diagnostic("`u8: crate::What`", "b.rs", 1, "what!()"),
        diagnostic("`u8: crate::What`", "a.rs", 9, "what!()"),
        diagnostic("`u8: crate::What`", "ab.rs", 1, "what!()"),
    ]);
    let sorted = sorted_holes(holes);
    let keys: Vec<(String, u64)> = sorted.iter().map(|h| (h.file.clone(), h.line)).collect();
    assert_eq!(
        keys,
        vec![
            ("a.rs".to_string(), 9),
            ("a.rs".to_string(), 10),
            ("ab.rs".to_string(), 1),
            ("b.rs".to_string(), 1),
            ("b.rs".to_string(), 2),
        ]
    );
}

fn plain(lines: &[Vec<Segment>]) -> Vec<String> {
    lines.iter().map(|l| l.iter().map(|s| s.text.as_str()).collect::<String>()).collect()
}

fn hole(ty: Option<&str>, tr: Option<&str>, args: &[(&str, &str)], context: &[&str]) -> Hole {
    Hole {
        ty: ty.map(|s| s.to_string()),
        tr: tr.map(|s| s.to_string()),
        args: args.iter().map(|(a, b)| (a.to_string(), b.to_string())).collect(),
        file: "src/hello.rs".to_string(),
        line: 3,
        context: context.iter().map(|s| s.to_string()).collect(),
    }
}

#[test]
fn render_with_arguments() {
    let h = hole(
        Some("usize"),
        None,
        &[("a", "usize"), ("c", "std::ops::Range<usize>")],
        &["  |", "3 |     what!(a, c)", "  |     ^^^^^^^^^^^^^^"],
    );
    let out = render_hole(&h).unwrap();
    assert_eq!(
        plain(&out),
        vec![
            "hole: expecting `usize`",
            "  |",
            "3 |     what!(a, c)",
            "  |     ^^^^^^^^^^^^^^",
            " |",
            " = note: a is `usize`",
            " = note: c is `std::ops::Range<usize>`",
            "",
        ]
    );
    assert_eq!(out[0][0].tone, Tone::Label);
    assert_eq!(out[0][1].tone, Tone::Emphasis);
    assert_eq!(out[3][1].text, "  |");
    assert_eq!(out[3][1].tone, Tone::Gutter);
    assert_eq!(out[3][3].text, "^^^^^^^^^^^^^^");
    assert_eq!(out[3][3].tone, Tone::Squiggle);
    assert_eq!(out[2].len(), 3);
    assert_eq!(out[2][2].text, "     what!(a, c)");
}

#[test]
fn render_capability_and_unknown() {
    let h = hole(None, Some("Iterator"), &[], &["x"]);
    assert_eq!(plain(&render_hole(&h).unwrap()), vec!["hole: expecting `impl Iterator`", "x", ""]);
    let h = hole(None, None, &[("a", "u8")], &[]);
    assert_eq!(plain(&render_hole(&h).unwrap()), vec!["hole: expecting `_`", "|", "= note: a is `u8`", ""]);
    let h = hole(None, None, &[], &["x"]);
    assert!(render_hole(&h).is_none());
}

#[test]
fn render_multiline_underline() {
    let h = hole(
        Some("u8"),
        None,
        &[],
        &["  |", "3 |       what!(", "  |  _____^", "4 | |     )"],
    );
    let out = render_hole(&h).unwrap();
    let text = plain(&out);
    assert_eq!(text[0], "hole: expecting `u8`");
    assert_eq!(text[3], "  |  _____^");
    // the fourth line has no underline: nothing more is drawn
    assert_eq!(text.len(), 5);
    let h = hole(
        Some("u8"),
        None,
        &[],
        &["  |", "3 |     what!(x)", "  |     x", "  |     ^^^^^^^^"],
    );
    let text = plain(&render_hole(&h).unwrap());
    assert_eq!(text[4], " |      ^^^^^^^^");
    let h = hole(
        Some("u8"),
        None,
        &[],
        &["  |", "3 |     what!(x)", "  |     xyz", "  |   ^"],
    );
    let text = plain(&render_hole(&h).unwrap());
    assert_eq!(text[4], " |    ^^^^^");
}

#[test]
fn render_all_in_sorted_order() {
    let holes = feed(&[
        diagnostic("`u8: crate::What`", "b.rs", 1, "what!()"),
        diagnostic("`i8: crate::What`", "a.rs", 1, "what!()"),
    ]);
    let sorted = sorted_holes(holes);
    let out = cargo_what::render::render_all(&sorted);
    let text = plain(&out);
    assert_eq!(text[0], "hole: expecting `i8`");
    let second = text.iter().position(|l| l == "hole: expecting `u8`").unwrap();
    assert!(second > 0);
    assert_eq!(text.last().unwrap(), "");
}

#[test]
fn later_kind_replaces_the_earlier() {
    let cap = diagnostic("`crate::WhatTrait` doesn't implement `Debug`", "a.rs", 1, "what!()");
    let ty = diagnostic("`u8: crate::What`", "a.rs", 1, "what!()");
    let holes = feed(&[cap.clone(), ty.clone()]);
    assert_eq!(holes.entries[0].ty.as_deref(), Some("u8"));
    assert_eq!(holes.entries[0].tr, None);
    let holes = feed(&[ty, cap]);
    assert_eq!(holes.entries[0].ty, None);
    assert_eq!(holes.entries[0].tr.as_deref(), Some("Debug"));
}

#[test]
fn excerpt_text_is_kept_whole() {
    let h = hole(Some("u8"), None, &[], &["  |", "3 |  x", "  |  ^ x"]);
    let text = plain(&render_hole(&h).unwrap());
    assert_eq!(&text[1..4], &["  |", "3 |  x", "  |  ^ x"]);
    let h = hole(Some("u8"), None, &[], &["note a|b", "x"]);
    let out = render_hole(&h).unwrap();
    assert_eq!(plain(&out)[1], "note a|b");
    assert_eq!(out[1].len(), 1);
    assert_eq!(out[1][0].tone, Tone::Plain);
}

#[test]
fn layout_from_positions() {
    let line = body_line_at("12 |  ^^ tail", Some((0, 4)), Some((6, 8)));
    let parts: Vec<(&str, Tone)> = line.iter().map(|s| (s.text.as_str(), s.tone)).collect();
    assert_eq!(
        parts,
        vec![("", Tone::Plain), ("12 |", Tone::Gutter), ("  ", Tone::Plain), ("^^", Tone::Squiggle), (" tail", Tone::Plain)]
    );
    let line = body_line_at("12 |  x", Some((0, 4)), None);
    assert_eq!(plain(&[line]), vec!["12 |  x"]);
    let line = body_line_at("plain", None, Some((0, 1)));
    assert_eq!(line.len(), 1);
    let ctx: Vec<String> = ["  |", "3 | a", "  |  b", "  | ^^^"].iter().map(|s| s.to_string()).collect();
    let under = underline_at(&ctx, 2, Some((4, 7))).unwrap();
    assert_eq!(plain(&[under]), vec![" |  ^^^"]);
    let under = underline_at(&ctx, 2, Some((4, 5))).unwrap();
    assert_eq!(plain(&[under]), vec![" |  ^^"]);
    assert!(underline_at(&ctx, 2, None).is_none());
}
