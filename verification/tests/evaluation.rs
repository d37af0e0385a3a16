use execpolicy::{Decision, Evaluation, PolicyParser, combine_evaluations};

fn parse_one(src: &str) -> execpolicy::Policy {
    let mut parser = PolicyParser::new();
    parser.parse("test.policy", src).expect("policy must compile");
    parser.build()
}

fn cmd(tokens: &[&str]) -> Vec<String> {
    tokens.iter().map(|t| t.to_string()).collect()
}

#[test]
fn forbidden_program_matches_regardless_of_arguments() {
    let policy = parse_one(r#"define_program("rm", forbidden="no deletes")"#);
    let eval = policy.check(&cmd(&["rm", "-rf", "/tmp"]));
    assert_eq!(eval, Evaluation::Match(Decision::Forbidden("no deletes".to_string())));
}

#[test]
fn forbidden_program_matches_by_basename() {
    let policy = parse_one(r#"define_program("rm", forbidden="no deletes")"#);
    let eval = policy.check(&cmd(&["/bin/rm", "f"]));
    assert_eq!(eval, Evaluation::Match(Decision::Forbidden("no deletes".to_string())));
}

#[test]
fn readable_file_matcher_checks_the_disk() {
    let policy = parse_one(r#"define_program("cat", args=[ARG_RFILES])"#);
    let ok = policy.check(&cmd(&["cat", "/etc/hosts"]));
    assert_eq!(ok, Evaluation::Match(Decision::Allow));
    let missing = policy.check(&cmd(&["cat", "/does/not/exist"]));
    assert_eq!(missing, Evaluation::NoMatch);
}

#[test]
fn readable_files_requires_at_least_one_token() {
    let policy = parse_one(r#"define_program("cat", args=[ARG_RFILES])"#);
    assert_eq!(policy.check(&cmd(&["cat"])), Evaluation::NoMatch);
}

#[test]
fn readable_files_or_cwd_accepts_an_empty_tail() {
    let policy = parse_one(r#"define_program("ls", args=[ARG_RFILES_OR_CWD])"#);
    assert_eq!(policy.check(&cmd(&["ls"])), Evaluation::Match(Decision::Allow));
    assert_eq!(policy.check(&cmd(&["ls", "/etc/hosts"])), Evaluation::Match(Decision::Allow));
    assert_eq!(policy.check(&cmd(&["ls", "/does/not/exist"])), Evaluation::NoMatch);
}

#[test]
fn unverified_varargs_absorbs_anything() {
    let policy = parse_one(r#"define_program("echo", args=[ARG_UNVERIFIED_VARARGS])"#);
    assert_eq!(policy.check(&cmd(&["echo"])), Evaluation::Match(Decision::Allow));
    assert_eq!(
        policy.check(&cmd(&["echo", "--weird", "/does/not/exist"])),
        Evaluation::Match(Decision::Allow)
    );
}

#[test]
fn positive_integer_matcher_accepts_only_positive_decimals() {
    let policy = parse_one(
        r#"define_program("head", options=[opt("-n", ARG_POS_INT)], args=[ARG_RFILES])"#,
    );
    assert_eq!(
        policy.check(&cmd(&["head", "-n", "5", "/etc/hosts"])),
        Evaluation::Match(Decision::Allow)
    );
    assert_eq!(policy.check(&cmd(&["head", "-n", "0", "/etc/hosts"])), Evaluation::NoMatch);
    assert_eq!(policy.check(&cmd(&["head", "-n", "00", "/etc/hosts"])), Evaluation::NoMatch);
    assert_eq!(
        policy.check(&cmd(&["head", "-n", "07", "/etc/hosts"])),
        Evaluation::Match(Decision::Allow)
    );
    assert_eq!(policy.check(&cmd(&["head", "-n", "5x", "/etc/hosts"])), Evaluation::NoMatch);
}

#[test]
fn sed_command_matcher_accepts_the_edit_script_subset() {
    let policy = parse_one(
        r#"define_program("sed", args=[ARG_SED_COMMAND, ARG_RFILES])"#,
    );
    assert_eq!(
        policy.check(&cmd(&["sed", "s/a/b/g", "/etc/hosts"])),
        Evaluation::Match(Decision::Allow)
    );
    assert_eq!(
        policy.check(&cmd(&["sed", "1,20p", "/etc/hosts"])),
        Evaluation::Match(Decision::Allow)
    );
    assert_eq!(policy.check(&cmd(&["sed", "e whatever", "/etc/hosts"])), Evaluation::NoMatch);
}

#[test]
fn undeclared_option_stops_the_match() {
    let policy = parse_one(r#"define_program("ls", options=[flag("-l")])"#);
    assert_eq!(policy.check(&cmd(&["ls", "-l"])), Evaluation::Match(Decision::Allow));
    assert_eq!(policy.check(&cmd(&["ls", "-x"])), Evaluation::NoMatch);
}

#[test]
fn required_option_must_be_present() {
    let policy = parse_one(
        r#"define_program("tool", options=[opt("--level", ARG_POS_INT, required=True)])"#,
    );
    assert_eq!(
        policy.check(&cmd(&["tool", "--level", "3"])),
        Evaluation::Match(Decision::Allow)
    );
    assert_eq!(policy.check(&cmd(&["tool"])), Evaluation::NoMatch);
}

#[test]
fn option_bundling_accepts_concatenated_flags() {
    let bundled = parse_one(
        r#"define_program("ls", option_bundling=True, options=[flag("-l"), flag("-a")])"#,
    );
    assert_eq!(bundled.check(&cmd(&["ls", "-la"])), Evaluation::Match(Decision::Allow));
    let plain = parse_one(r#"define_program("ls", options=[flag("-l"), flag("-a")])"#);
    assert_eq!(plain.check(&cmd(&["ls", "-la"])), Evaluation::NoMatch);
}

#[test]
fn combined_format_accepts_equals_attached_values() {
    let policy = parse_one(
        r#"define_program("tool", combined_format=True, options=[opt("--input", ARG_RFILE)])"#,
    );
    assert_eq!(
        policy.check(&cmd(&["tool", "--input=/etc/hosts"])),
        Evaluation::Match(Decision::Allow)
    );
    assert_eq!(policy.check(&cmd(&["tool", "--input=/does/not/exist"])), Evaluation::NoMatch);
    let plain = parse_one(r#"define_program("tool", options=[opt("--input", ARG_RFILE)])"#);
    assert_eq!(plain.check(&cmd(&["tool", "--input=/etc/hosts"])), Evaluation::NoMatch);
}

#[test]
fn writeable_file_matcher_accepts_a_creatable_path() {
    let policy = parse_one(r#"define_program("touch", args=[ARG_WFILE])"#);
    assert_eq!(
        policy.check(&cmd(&["touch", "fresh_output.txt"])),
        Evaluation::Match(Decision::Allow)
    );
    assert_eq!(
        policy.check(&cmd(&["touch", "/does/not/exist/out.txt"])),
        Evaluation::NoMatch
    );
}

#[test]
fn leftover_tokens_stop_the_match() {
    let policy = parse_one(r#"define_program("pwd")"#);
    assert_eq!(policy.check(&cmd(&["pwd"])), Evaluation::Match(Decision::Allow));
    assert_eq!(policy.check(&cmd(&["pwd", "extra"])), Evaluation::NoMatch);
}

#[test]
fn install_dirs_pin_absolute_program_tokens() {
    let policy = parse_one(r#"define_program("git", system_path=["/usr/bin"])"#);
    assert_eq!(policy.check(&cmd(&["git"])), Evaluation::Match(Decision::Allow));
    assert_eq!(policy.check(&cmd(&["/usr/bin/git"])), Evaluation::Match(Decision::Allow));
    assert_eq!(policy.check(&cmd(&["/opt/git"])), Evaluation::NoMatch);
}

#[test]
fn first_registered_spec_wins() {
    let policy = parse_one(
        r#"
define_program("tool", prompt="numbers are risky", args=[ARG_POS_INT])
define_program("tool", args=[ARG_UNVERIFIED_VARARGS])
"#,
    );
    assert_eq!(
        policy.check(&cmd(&["tool", "5"])),
        Evaluation::Match(Decision::Prompt("numbers are risky".to_string()))
    );
    assert_eq!(policy.check(&cmd(&["tool", "other"])), Evaluation::Match(Decision::Allow));
}

#[test]
fn forbidden_substring_hits_the_joined_text() {
    let policy = parse_one(r#"forbid_substrings(["rm -rf"])"#);
    let eval = policy.check(&cmd(&["rm", "-rf", "/tmp"]));
    assert_eq!(eval, Evaluation::Match(Decision::Forbidden("rm -rf".to_string())));
    assert_eq!(policy.check(&cmd(&["rm", "-r", "/tmp"])), Evaluation::NoMatch);
}

#[test]
fn forbidden_substring_wins_over_an_allowing_spec() {
    let policy = parse_one(
        r#"
define_program("cat", args=[ARG_RFILES])
forbid_substrings(["/etc/hosts"])
"#,
    );
    let eval = policy.check(&cmd(&["cat", "/etc/hosts"]));
    assert_eq!(eval, Evaluation::Match(Decision::Forbidden("/etc/hosts".to_string())));
}

#[test]
fn forbidden_program_regex_matches_the_basename() {
    let policy = parse_one(r#"forbid_program_regex("^rm$", "banned name")"#);
    assert_eq!(
        policy.check(&cmd(&["rm", "x"])),
        Evaluation::Match(Decision::Forbidden("banned name".to_string()))
    );
    assert_eq!(
        policy.check(&cmd(&["/bin/rm"])),
        Evaluation::Match(Decision::Forbidden("banned name".to_string()))
    );
    assert_eq!(policy.check(&cmd(&["rmdir"])), Evaluation::NoMatch);
}

#[test]
fn empty_command_has_no_match() {
    let policy = parse_one(r#"define_program("cat", args=[ARG_RFILES])"#);
    assert_eq!(policy.check(&Vec::new()), Evaluation::NoMatch);
}

#[test]
fn combine_takes_the_gravest_verdict() {
    let allow = Evaluation::Match(Decision::Allow);
    let prompt = Evaluation::Match(Decision::Prompt("ask".to_string()));
    let forbidden = Evaluation::Match(Decision::Forbidden("no".to_string()));
    assert_eq!(combine_evaluations(&vec![allow.clone(), prompt.clone()]), prompt);
    assert_eq!(combine_evaluations(&vec![allow.clone(), forbidden.clone()]), forbidden);
    assert_eq!(
        combine_evaluations(&vec![Evaluation::NoMatch, Evaluation::NoMatch]),
        Evaluation::NoMatch
    );
    assert_eq!(combine_evaluations(&vec![Evaluation::NoMatch, allow.clone()]), allow);
}

#[test]
fn check_multiple_combines_by_severity() {
    let policy = parse_one(
        r#"
define_program("ok")
define_program("ask", prompt="ask first")
define_program("rm", forbidden="no deletes")
"#,
    );
    let prompt = policy.check_multiple(&vec![cmd(&["ok"]), cmd(&["ask"])]);
    assert_eq!(prompt, Evaluation::Match(Decision::Prompt("ask first".to_string())));
    let forbidden = policy.check_multiple(&vec![cmd(&["ok"]), cmd(&["rm"])]);
    assert_eq!(forbidden, Evaluation::Match(Decision::Forbidden("no deletes".to_string())));
    let none = policy.check_multiple(&vec![cmd(&["zzz"]), cmd(&["yyy"])]);
    assert_eq!(none, Evaluation::NoMatch);
    let allow = policy.check_multiple(&vec![cmd(&["zzz"]), cmd(&["ok"])]);
    assert_eq!(allow, Evaluation::Match(Decision::Allow));
}
