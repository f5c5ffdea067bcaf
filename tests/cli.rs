use cargo_what::cli::{parse_args, Invocation};

fn args(list: &[&str]) -> Vec<String> {
    list.iter().map(|s| s.to_string()).collect()
}

fn build(list: &[&str]) -> (Vec<String>, Option<bool>) {
    match parse_args(&args(list)) {
        Invocation::Build { args, color } => (args, color),
        _ => panic!("expected a build"),
    }
}

#[test]
fn subcommand_name_is_dropped_once() {
    assert_eq!(build(&["what", "-q", "what"]), (args(&["-q", "what"]), None));
    assert_eq!(build(&[]), (args(&[]), None));
}

#[test]
fn color_flags_are_read_and_dropped() {
    assert_eq!(build(&["what", "--color=always", "--release"]), (args(&["--release"]), Some(true)));
    assert_eq!(build(&["what", "--color=never"]), (args(&[]), Some(false)));
    assert_eq!(build(&["what", "--color=auto"]), (args(&[]), None));
}

#[test]
fn dashdash_passes_the_rest_on() {
    assert_eq!(
        build(&["what", "--", "--version", "--color=never", "what"]),
        (args(&["--version", "--color=never", "what"]), None)
    );
}

#[test]
fn version_help_and_unsupported() {
    assert!(matches!(parse_args(&args(&["what", "--version"])), Invocation::Version));
    assert!(matches!(parse_args(&args(&["what", "-h"])), Invocation::Help));
    assert!(matches!(parse_args(&args(&["what", "--help", "--version"])), Invocation::Help));
    match parse_args(&args(&["what", "--message-format=short"])) {
        Invocation::Unsupported(m) => assert_eq!(m, "--message-format not supported"),
        _ => panic!("expected a refusal"),
    }
}
