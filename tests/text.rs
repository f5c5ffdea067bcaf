use cargo_what::extract::{context_exec, select_diagnostic};
use cargo_what::hole::Holes;
use cargo_what::extract::parse_message;
use cargo_what::json::Json;
use cargo_what::pattern::{decimal_string, find_split, is_match, GUTTER_PATTERN, SITE_PATTERN, SQUIGGLE_PATTERN};
use cargo_what::render::render_all;
use cargo_what::text::{contains_exec, lines_exec, starts_with_exec, text_eq};

#[test]
fn lines_like_std() {
    for s in ["", "a", "a\n", "a\r\nb", "\n\nx\n", "one\ntwo\r\n", "\r"] {
        let expected: Vec<String> = s.lines().map(|l| l.to_string()).collect();
        assert_eq!(lines_exec(s), expected, "{:?}", s);
    }
}

#[test]
fn context_is_lines_one_to_four() {
    assert_eq!(context_exec("h\na\nb\nc\nd\ne\nf"), vec!["a", "b", "c", "d"]);
    assert_eq!(context_exec("h\na"), vec!["a"]);
    assert!(context_exec("h").is_empty());
    assert!(context_exec("").is_empty());
}

#[test]
fn json_documents() {
    let line = r#"{"reason":"compiler-message","message":{"code":{"code":"E0277"},"b":[1,"x",null],"a":true,"n":-3,"m":42}}"#;
    match parse_message(line) {
        Some(Json::Object(fields)) => {
            let keys: Vec<&str> = fields.iter().map(|f| f.0.as_str()).collect();
            assert_eq!(keys, vec!["a", "b", "code", "m", "n"]);
            assert!(matches!(fields[0].1, Json::Bool(true)));
            assert!(matches!(&fields[1].1, Json::Array(items) if items.len() == 3));
            assert!(matches!(fields[3].1, Json::Number(Some(42))));
            assert!(matches!(fields[4].1, Json::Number(None)));
        }
        _ => panic!("expected an object"),
    }
    assert!(parse_message("{").is_none());
}

#[test]
fn patterns() {
    assert!(is_match(SITE_PATTERN, "    what!(a, b)"));
    assert!(is_match(SITE_PATTERN, "what!("));
    assert!(!is_match(SITE_PATTERN, "what!(@a)"));
    assert!(!is_match(SITE_PATTERN, "what!{}"));
    let (pre, m, post) = find_split(GUTTER_PATTERN, "12 |  x").unwrap();
    assert_eq!((pre.as_str(), m.as_str(), post.as_str()), ("", "12 |", "  x"));
    let (pre, m, post) = find_split(SQUIGGLE_PATTERN, "  |  ^^^ here").unwrap();
    assert_eq!((pre.as_str(), m.as_str(), post.as_str()), ("  |  ", "^^^", " here"));
    assert!(find_split(SQUIGGLE_PATTERN, "no underline").is_none());
}

#[test]
fn text_helpers() {
    assert!(text_eq("abc", "abc"));
    assert!(!text_eq("abc", "abd"));
    assert!(starts_with_exec("--color=always", "--color"));
    assert!(!starts_with_exec("--col", "--color"));
    assert!(contains_exec("--color=always", "always"));
    assert!(contains_exec("x", ""));
    assert!(!contains_exec("--color=auto", "never"));
}

#[test]
fn empty_table_renders_nothing() {
    let holes = Holes::new();
    assert!(render_all(&holes.entries).is_empty());
}

#[test]
fn decimal_strings() {
    assert_eq!(decimal_string(0), "0");
    assert_eq!(decimal_string(7), "7");
    assert_eq!(decimal_string(10), "10");
    assert_eq!(decimal_string(1203), "1203");
    assert_eq!(decimal_string(usize::MAX), usize::MAX.to_string());
}

fn string(s: &str) -> Json {
    Json::Str(s.to_string())
}

#[test]
fn diagnostic_selection() {
    let code = Json::Object(vec![("code".to_string(), string("E0277"))]);
    let message = Json::Object(vec![("code".to_string(), code)]);
    let record = Json::Object(vec![
        ("message".to_string(), message),
        ("reason".to_string(), string("compiler-message")),
    ]);
    assert!(matches!(select_diagnostic(record), Some(Json::Object(f)) if f.len() == 1));
    let other = Json::Object(vec![("code".to_string(), Json::Object(vec![("code".to_string(), string("E0308"))]))]);
    let record = Json::Object(vec![
        ("message".to_string(), other),
        ("reason".to_string(), string("compiler-message")),
    ]);
    assert!(select_diagnostic(record).is_none());
    let record = Json::Object(vec![("reason".to_string(), string("build-finished"))]);
    assert!(select_diagnostic(record).is_none());
    assert!(select_diagnostic(Json::Null).is_none());
}
