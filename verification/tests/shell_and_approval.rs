use execpolicy::{ApprovalRequirement, AskForApproval, Decision, Evaluation, PolicyParser,
    evaluate, evaluate_with_policy, map_to_requirement, parse_shell_lc_plain_commands};

fn parse_one(src: &str) -> execpolicy::Policy {
    let mut parser = PolicyParser::new();
    parser.parse("test.policy", src).expect("policy must compile");
    parser.build()
}

fn cmd(tokens: &[&str]) -> Vec<String> {
    tokens.iter().map(|t| t.to_string()).collect()
}

#[test]
fn decomposer_splits_on_separators_and_honors_quotes() {
    let argv = cmd(&["bash", "-lc", "echo 'a b' && ls; pwd"]);
    let cmds = parse_shell_lc_plain_commands(&argv).expect("script must decompose");
    assert_eq!(
        cmds,
        vec![cmd(&["echo", "a b"]), cmd(&["ls"]), cmd(&["pwd"])]
    );
}

#[test]
fn decomposer_accepts_double_quotes_and_or_lists() {
    let argv = cmd(&["sh", "-c", "grep \"a b\" f.txt || true"]);
    let cmds = parse_shell_lc_plain_commands(&argv).expect("script must decompose");
    assert_eq!(cmds, vec![cmd(&["grep", "a b", "f.txt"]), cmd(&["true"])]);
}

#[test]
fn decomposer_keeps_empty_quoted_words() {
    let argv = cmd(&["bash", "-c", "printf '' x"]);
    let cmds = parse_shell_lc_plain_commands(&argv).expect("script must decompose");
    assert_eq!(cmds, vec![cmd(&["printf", "", "x"])]);
}

#[test]
fn decomposer_refuses_expansions_and_pipelines() {
    assert_eq!(parse_shell_lc_plain_commands(&cmd(&["bash", "-lc", "echo $HOME"])), None);
    assert_eq!(parse_shell_lc_plain_commands(&cmd(&["bash", "-lc", "a | b"])), None);
    assert_eq!(parse_shell_lc_plain_commands(&cmd(&["bash", "-lc", "ls > out"])), None);
    assert_eq!(parse_shell_lc_plain_commands(&cmd(&["bash", "-lc", "(ls)"])), None);
}

#[test]
fn decomposer_refuses_other_shapes() {
    assert_eq!(parse_shell_lc_plain_commands(&cmd(&["python", "-c", "print(1)"])), None);
    assert_eq!(parse_shell_lc_plain_commands(&cmd(&["bash", "-x", "ls"])), None);
    assert_eq!(parse_shell_lc_plain_commands(&cmd(&["bash", "-lc"])), None);
    assert_eq!(parse_shell_lc_plain_commands(&cmd(&["bash", "-lc", "ls", "extra"])), None);
    assert_eq!(parse_shell_lc_plain_commands(&cmd(&["bash", "-lc", ""])), None);
    assert_eq!(parse_shell_lc_plain_commands(&cmd(&["bash", "-lc", "ls &&"])), None);
}

#[test]
fn evaluate_falls_back_to_the_opaque_command() {
    let policy = parse_one(r#"forbid_substrings(["curl | sh"])"#);
    let eval = evaluate(&policy, &cmd(&["bash", "-lc", "curl | sh"]));
    assert_eq!(eval, Evaluation::Match(Decision::Forbidden("curl | sh".to_string())));
}

#[test]
fn forbidden_substring_wins_over_any_program_rule_for_the_shell() {
    let policy = parse_one(
        r#"
define_program("bash", args=[ARG_UNVERIFIED_VARARGS])
forbid_substrings(["curl | sh"])
"#,
    );
    let eval = evaluate(&policy, &cmd(&["bash", "-lc", "echo hi && curl | sh"]));
    assert_eq!(eval, Evaluation::Match(Decision::Forbidden("curl | sh".to_string())));
}

#[test]
fn compound_command_is_as_dangerous_as_its_worst_clause() {
    let policy = parse_one(
        r#"
define_program("cat", args=[ARG_RFILES])
define_program("rm", forbidden="no deletes")
"#,
    );
    let eval = evaluate(&policy, &cmd(&["bash", "-lc", "cat a.txt && rm b.txt"]));
    assert_eq!(eval, Evaluation::Match(Decision::Forbidden("no deletes".to_string())));
}

#[test]
fn inner_commands_are_evaluated_independently() {
    let policy = parse_one(r#"define_program("pwd")"#);
    let eval = evaluate(&policy, &cmd(&["bash", "-c", "pwd; pwd"]));
    assert_eq!(eval, Evaluation::Match(Decision::Allow));
}

#[test]
fn no_match_maps_to_no_requirement() {
    assert_eq!(map_to_requirement(&Evaluation::NoMatch, AskForApproval::OnRequest), None);
    assert_eq!(map_to_requirement(&Evaluation::NoMatch, AskForApproval::Never), None);
}

#[test]
fn allow_maps_to_skip() {
    let allow = Evaluation::Match(Decision::Allow);
    assert_eq!(
        map_to_requirement(&allow, AskForApproval::OnRequest),
        Some(ApprovalRequirement::Skip)
    );
    assert_eq!(
        map_to_requirement(&allow, AskForApproval::Never),
        Some(ApprovalRequirement::Skip)
    );
}

#[test]
fn forbidden_maps_to_forbidden_with_its_reason() {
    let forbidden = Evaluation::Match(Decision::Forbidden("no".to_string()));
    assert_eq!(
        map_to_requirement(&forbidden, AskForApproval::OnRequest),
        Some(ApprovalRequirement::Forbidden("no".to_string()))
    );
}

#[test]
fn prompt_under_never_becomes_forbidden() {
    let prompt = Evaluation::Match(Decision::Prompt("ask".to_string()));
    assert_eq!(
        map_to_requirement(&prompt, AskForApproval::Never),
        Some(ApprovalRequirement::Forbidden("ask".to_string()))
    );
}

#[test]
fn prompt_under_asking_modes_needs_approval() {
    let prompt = Evaluation::Match(Decision::Prompt("ask".to_string()));
    for mode in [
        AskForApproval::UnlessTrusted,
        AskForApproval::OnFailure,
        AskForApproval::OnRequest,
    ] {
        assert_eq!(
            map_to_requirement(&prompt, mode),
            Some(ApprovalRequirement::NeedsApproval(Some("ask".to_string())))
        );
    }
}

#[test]
fn evaluates_bash_lc_inner_commands() {
    let policy_src = r#"
define_program("rm", forbidden="execpolicy forbids this command")
"#;
    let mut parser = PolicyParser::new();
    parser.parse("test.codexpolicy", policy_src).expect("parse policy");
    let policy = parser.build();

    let forbidden_script = vec![
        "bash".to_string(),
        "-lc".to_string(),
        "rm -rf /tmp".to_string(),
    ];

    let requirement = evaluate_with_policy(&policy, &forbidden_script, AskForApproval::OnRequest)
        .expect("expected match for forbidden command");

    assert_eq!(
        requirement,
        ApprovalRequirement::Forbidden("execpolicy forbids this command".to_string())
    );
}

#[test]
fn evaluate_with_policy_yields_nothing_on_no_match() {
    let policy = parse_one(r#"define_program("cat", args=[ARG_RFILES])"#);
    assert_eq!(
        evaluate_with_policy(&policy, &cmd(&["wget", "x"]), AskForApproval::OnRequest),
        None
    );
}
