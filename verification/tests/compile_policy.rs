use execpolicy::{ArgMatcher, Decision, ErrorKind, Evaluation, PolicyParser, compile};

fn parse_one(src: &str) -> Result<execpolicy::Policy, execpolicy::CompileError> {
    let mut parser = PolicyParser::new();
    parser.parse("test.policy", src)?;
    Ok(parser.build())
}

fn cmd(tokens: &[&str]) -> Vec<String> {
    tokens.iter().map(|t| t.to_string()).collect()
}

#[test]
fn empty_source_builds_empty_policy() {
    let policy = parse_one("").expect("empty source must compile");
    assert_eq!(policy.programs.len(), 0);
    assert_eq!(policy.forbidden_substrings.len(), 0);
    assert_eq!(policy.forbidden_program_regexes.len(), 0);
}

#[test]
fn define_program_registers_spec() {
    let policy = parse_one(
        r#"
# a spec for cat, with a comment above it
define_program("cat", args=[ARG_RFILES])
"#,
    )
    .expect("policy must compile");
    assert_eq!(policy.programs.len(), 1);
    assert_eq!(policy.programs[0].program, "cat");
    assert_eq!(policy.programs[0].positional_args, vec![ArgMatcher::ReadableFiles]);
    assert_eq!(policy.programs[0].decision, Decision::Allow);
}

#[test]
fn named_arguments_fill_the_spec() {
    let policy = parse_one(
        r#"define_program(
            program="ls",
            system_path=["/bin", "/usr/bin"],
            option_bundling=True,
            combined_format=False,
            options=[flag("-l"), opt("-w", ARG_POS_INT), opt("--file", ARG_RFILE, required=True)],
            args=[ARG_RFILES_OR_CWD],
        )"#,
    )
    .expect("policy must compile");
    let spec = &policy.programs[0];
    assert_eq!(spec.program, "ls");
    assert_eq!(spec.allowed_install_dirs, vec!["/bin".to_string(), "/usr/bin".to_string()]);
    assert!(spec.option_bundling);
    assert!(!spec.combined_format);
    assert_eq!(spec.options.len(), 3);
    assert_eq!(spec.options[2].name, "--file");
    assert!(spec.options[2].required);
    assert!(!spec.options[0].required);
}

#[test]
fn forbidden_reason_sets_decision() {
    let policy = parse_one(r#"define_program("rm", forbidden="no deletes")"#).expect("compiles");
    assert_eq!(policy.programs[0].decision, Decision::Forbidden("no deletes".to_string()));
}

#[test]
fn prompt_reason_sets_decision() {
    let policy = parse_one(r#"define_program("sudo", prompt="be careful")"#).expect("compiles");
    assert_eq!(policy.programs[0].decision, Decision::Prompt("be careful".to_string()));
}

#[test]
fn string_escapes_are_decoded() {
    let policy = parse_one(r#"define_program("x", forbidden="line1\nline2\t\"q\"")"#)
        .expect("compiles");
    assert_eq!(
        policy.programs[0].decision,
        Decision::Forbidden("line1\nline2\t\"q\"".to_string())
    );
}

#[test]
fn single_quoted_strings_are_accepted() {
    let policy = parse_one("define_program('tar', args=[ARG_UNVERIFIED_VARARGS])")
        .expect("compiles");
    assert_eq!(policy.programs[0].program, "tar");
}

#[test]
fn unknown_statement_is_rejected() {
    let err = parse_one("bogus()").expect_err("must fail");
    assert!(matches!(err.kind, ErrorKind::UnknownStatement { ref name } if name == "bogus"));
    assert_eq!(err.source, "test.policy");
}

#[test]
fn malformed_statement_is_a_syntax_error() {
    let err = parse_one("define_program(").expect_err("must fail");
    assert!(matches!(err.kind, ErrorKind::Syntax { .. }));
}

#[test]
fn unknown_argument_is_rejected() {
    let err = parse_one(r#"define_program("x", wat=True)"#).expect_err("must fail");
    assert!(matches!(err.kind, ErrorKind::BadArgument { ref name } if name == "wat"));
}

#[test]
fn unknown_matcher_is_rejected() {
    let err = parse_one(r#"define_program("x", args=[ARG_NOPE])"#).expect_err("must fail");
    assert!(matches!(err.kind, ErrorKind::BadArgument { ref name } if name == "ARG_NOPE"));
}

#[test]
fn missing_program_name_is_rejected() {
    let err = parse_one("define_program(option_bundling=True)").expect_err("must fail");
    assert!(matches!(err.kind, ErrorKind::BadArgument { ref name } if name == "program"));
}

#[test]
fn duplicate_option_names_fail_the_build() {
    let err = parse_one(r#"define_program("x", options=[flag("-a"), flag("-a")])"#)
        .expect_err("must fail");
    assert!(matches!(err.kind, ErrorKind::DuplicateOption { ref option } if option == "-a"));
}

#[test]
fn variadic_matcher_must_be_last() {
    let err = parse_one(r#"define_program("x", args=[ARG_RFILES, ARG_POS_INT])"#)
        .expect_err("must fail");
    assert!(matches!(err.kind, ErrorKind::VariadicNotLast { ref program } if program == "x"));
}

#[test]
fn invalid_regex_fails_the_build() {
    let err = parse_one(r#"forbid_program_regex("(", "broken")"#).expect_err("must fail");
    assert!(matches!(err.kind, ErrorKind::InvalidRegex { ref pattern } if pattern == "("));
}

#[test]
fn should_match_self_test_passes_and_evaluates() {
    let policy = parse_one(
        r#"define_program("cat", args=[ARG_RFILES], should_match=[["cat", "/etc/hosts"]])"#,
    )
    .expect("self-test must pass: /etc/hosts is readable");
    let eval = policy.check(&cmd(&["cat", "/etc/hosts"]));
    assert!(matches!(eval, Evaluation::Match(Decision::Allow)));
}

#[test]
fn failing_should_match_self_test_aborts_compile() {
    let err = parse_one(
        r#"define_program("cat", args=[ARG_RFILES], should_match=[["cat", "/does/not/exist"]])"#,
    )
    .expect_err("self-test must fail");
    assert!(matches!(
        err.kind,
        ErrorKind::SelfTestFailed { ref program, expected_match: true } if program == "cat"
    ));
}

#[test]
fn matching_should_not_match_self_test_aborts_compile() {
    let err = parse_one(
        r#"define_program("cat", args=[ARG_RFILES], should_not_match=[["cat", "/etc/hosts"]])"#,
    )
    .expect_err("self-test must fail");
    assert!(matches!(
        err.kind,
        ErrorKind::SelfTestFailed { ref program, expected_match: false } if program == "cat"
    ));
}

#[test]
fn non_matching_should_not_match_self_test_passes() {
    let policy = parse_one(
        r#"define_program("cat", args=[ARG_RFILES], should_not_match=[["cat", "/does/not/exist"]])"#,
    )
    .expect("self-test must pass");
    assert_eq!(policy.programs.len(), 1);
}

#[test]
fn failed_parse_leaves_the_parser_unchanged() {
    let mut parser = PolicyParser::new();
    parser.parse("a.policy", r#"define_program("cat", args=[ARG_RFILES])"#).expect("compiles");
    let err = parser.parse("b.policy", "bogus()").expect_err("must fail");
    assert_eq!(err.source, "b.policy");
    let policy = parser.build();
    assert_eq!(policy.programs.len(), 1);
    assert_eq!(policy.programs[0].program, "cat");
}

#[test]
fn compile_accumulates_sources_in_order() {
    let sources = vec![
        ("a.policy".to_string(), r#"define_program("cat", args=[ARG_RFILES])"#.to_string()),
        ("b.policy".to_string(), r#"forbid_substrings(["rm -rf"])"#.to_string()),
    ];
    let policy = compile(&sources).expect("both sources must compile");
    assert_eq!(policy.programs.len(), 1);
    assert_eq!(policy.forbidden_substrings, vec!["rm -rf".to_string()]);
}

#[test]
fn compile_reports_the_failing_source() {
    let sources = vec![
        ("a.policy".to_string(), r#"define_program("cat", args=[ARG_RFILES])"#.to_string()),
        ("b.policy".to_string(), "nope()".to_string()),
    ];
    let err = compile(&sources).expect_err("second source must fail");
    assert_eq!(err.source, "b.policy");
    assert!(matches!(err.kind, ErrorKind::UnknownStatement { ref name } if name == "nope"));
}

#[test]
fn forbid_substrings_accumulates() {
    let policy = parse_one(r#"forbid_substrings(["a", "b"]) forbid_substrings(["c"])"#)
        .expect("compiles");
    assert_eq!(
        policy.forbidden_substrings,
        vec!["a".to_string(), "b".to_string(), "c".to_string()]
    );
}

#[test]
fn forbid_program_regex_is_stored_with_reason() {
    let policy = parse_one(r#"forbid_program_regex("^rm$", "no deletes")"#).expect("compiles");
    assert_eq!(policy.forbidden_program_regexes.len(), 1);
    assert_eq!(policy.forbidden_program_regexes[0].pattern, "^rm$");
    assert_eq!(policy.forbidden_program_regexes[0].reason, "no deletes");
}
