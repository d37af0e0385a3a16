//! The engine's guarantees, stated and proved once and for all: compiled-in
//! self-tests really hold of the compiled policy, the forbidden rules
//! short-circuit spec matching, the multi-command combinator is the
//! severity maximum, and a prompt verdict can never silently become an
//! allow under any approval mode.

use vstd::prelude::*;
use crate::approval::requirement_model;
use crate::compiler::{StmtFactsV, apply_stmts, facts_at, facts_list_at, first_sm_fail,
    first_snm_pass, fold_ok, lemma_apply_no_err, lemma_apply_ok_no_err, self_tests_result,
    stmt_apply, stmt_facts_wf};
use crate::evaluate::{check_model, combine_model, first_regex_hit_from, first_spec_hit_from,
    first_substring_hit_from, self_test_matches, severity, spec_matches_cmd};
use crate::matcher::TokenFacts;
use crate::pdl_lex::ErrorKindV;
use crate::pdl_parse::StmtV;
use crate::policy::{AskForApproval, ApprovalRequirementV, DecisionV, EvaluationV, PolicyV,
    ProgramSpecV};
use crate::text::{join_tokens, spec_basename};

verus! {

/// When the scan finds no failing `should_match` entry, every entry from
/// `j` on matches.
proof fn lemma_sm_all_pass(s: ProgramSpecV, fsm: Seq<Seq<TokenFacts>>, j: int)
    requires
        0 <= j <= s.should_match.len(),
        first_sm_fail(s, fsm, j) < 0,
    ensures
        forall|t: int|
            j <= t < s.should_match.len() ==> self_test_matches(
                s,
                #[trigger] s.should_match[t],
                facts_list_at(fsm, t),
            ),
    decreases s.should_match.len() - j,
{
    if j < s.should_match.len() {
        lemma_sm_all_pass(s, fsm, j + 1);
    }
}

/// When the scan finds no passing `should_not_match` entry, every entry
/// from `j` on fails to match.
proof fn lemma_snm_all_fail(s: ProgramSpecV, fsnm: Seq<Seq<TokenFacts>>, j: int)
    requires
        0 <= j <= s.should_not_match.len(),
        first_snm_pass(s, fsnm, j) < 0,
    ensures
        forall|t: int|
            j <= t < s.should_not_match.len() ==> !self_test_matches(
                s,
                #[trigger] s.should_not_match[t],
                facts_list_at(fsnm, t),
            ),
    decreases s.should_not_match.len() - j,
{
    if j < s.should_not_match.len() {
        lemma_snm_all_fail(s, fsnm, j + 1);
    }
}

/// Folding statements only appends to the registered programs: what is
/// registered stays, in place.
proof fn lemma_fold_programs_extend(b: PolicyV, stmts: Seq<StmtV>, j: int)
    requires
        0 <= j <= stmts.len(),
    ensures
        fold_ok(b, stmts, j).programs.len() >= b.programs.len(),
        forall|i: int|
            0 <= i < b.programs.len() ==> #[trigger] fold_ok(b, stmts, j).programs[i]
                == b.programs[i],
    decreases stmts.len() - j,
{
    if j < stmts.len() {
        lemma_fold_programs_extend(stmt_apply(b, stmts[j]), stmts, j + 1);
    }
}

/// A spec defined by statement `k` is registered in the folded policy.
proof fn lemma_fold_contains(b: PolicyV, stmts: Seq<StmtV>, j: int, k: int)
    requires
        0 <= j <= k < stmts.len(),
        stmts[k] is Define,
    ensures
        exists|i: int|
            0 <= i < fold_ok(b, stmts, j).programs.len() && #[trigger] fold_ok(
                b,
                stmts,
                j,
            ).programs[i] == stmts[k]->Define_0,
    decreases k - j,
{
    if j == k {
        let b2 = stmt_apply(b, stmts[j]);
        assert(b2.programs.last() == stmts[k]->Define_0);
        lemma_fold_programs_extend(b2, stmts, j + 1);
        let i = b2.programs.len() - 1;
        assert(fold_ok(b, stmts, j).programs[i] == stmts[k]->Define_0);
    } else {
        lemma_fold_contains(stmt_apply(b, stmts[j]), stmts, j + 1, k);
    }
}

/// When some registered spec at or after `j` is for the basename and
/// matches, the scan finds a hit.
proof fn lemma_spec_hit_exists(
    progs: Seq<ProgramSpecV>,
    cmd: Seq<Seq<char>>,
    facts: Seq<TokenFacts>,
    base: Seq<char>,
    j: int,
    i: int,
)
    requires
        0 <= j <= i < progs.len(),
        progs[i].program == base,
        spec_matches_cmd(progs[i], cmd, facts),
    ensures
        first_spec_hit_from(progs, cmd, facts, base, j) >= 0,
    decreases i - j,
{
    if j < i && !(progs[j].program == base && spec_matches_cmd(progs[j], cmd, facts)) {
        lemma_spec_hit_exists(progs, cmd, facts, base, j + 1, i);
    }
}

/// A command that self-test-matches some registered spec is a match of the
/// whole policy: either a forbidden rule already matches it, or the spec
/// scan finds a matching spec for its basename.
proof fn lemma_match_implies_check(
    p: PolicyV,
    s: ProgramSpecV,
    cmd: Seq<Seq<char>>,
    facts: Seq<TokenFacts>,
    i: int,
)
    requires
        0 <= i < p.programs.len(),
        p.programs[i] == s,
        self_test_matches(s, cmd, facts),
    ensures
        check_model(p, cmd, facts) is Match,
{
    let sh = first_substring_hit_from(p.forbidden_substrings, join_tokens(cmd), 0);
    if sh < 0 {
        let base = spec_basename(cmd[0]);
        let rh = first_regex_hit_from(p.forbidden_program_regexes, base, 0);
        if rh < 0 {
            lemma_spec_hit_exists(p.programs, cmd, facts, base, 0, i);
        }
    }
}

/// Every `should_match` self-test of a compiled policy holds of the policy
/// itself: when the statements fold in without error, each tested token
/// list matches its spec under the facts the compiler observed, and
/// evaluating it against the whole compiled policy yields a match. Had a
/// test not matched, the compile would have failed instead.
pub proof fn lemma_should_match_evaluates(
    b: PolicyV,
    stmts: Seq<StmtV>,
    fs: Seq<StmtFactsV>,
    p: PolicyV,
    k: int,
    t: int,
)
    requires
        apply_stmts(b, stmts, fs, 0) == Ok::<PolicyV, ErrorKindV>(p),
        stmt_facts_wf(stmts, fs),
        0 <= k < stmts.len(),
        stmts[k] is Define,
        0 <= t < stmts[k]->Define_0.should_match.len(),
    ensures
        self_test_matches(
            stmts[k]->Define_0,
            stmts[k]->Define_0.should_match[t],
            fs[k].sm[t],
        ),
        check_model(p, stmts[k]->Define_0.should_match[t], fs[k].sm[t]) is Match,
{
    let s = stmts[k]->Define_0;
    lemma_apply_ok_no_err(b, stmts, fs, 0);
    assert(facts_at(fs, k) == fs[k]);
    assert(self_tests_result(s, fs[k]) is Ok);
    lemma_sm_all_pass(s, fs[k].sm, 0);
    assert(facts_list_at(fs[k].sm, t) == fs[k].sm[t]);
    lemma_apply_no_err(b, stmts, fs, 0);
    assert(p == fold_ok(b, stmts, 0));
    lemma_fold_contains(b, stmts, 0, k);
    let i = choose|i: int|
        0 <= i < fold_ok(b, stmts, 0).programs.len() && #[trigger] fold_ok(
            b,
            stmts,
            0,
        ).programs[i] == s;
    lemma_match_implies_check(p, s, s.should_match[t], fs[k].sm[t], i);
}

/// No `should_not_match` self-test of a compiled policy matches its spec:
/// when the statements fold in without error, each such token list fails to
/// match under the facts the compiler observed. Had one matched, the
/// compile would have failed instead.
pub proof fn lemma_should_not_match_rejected(
    b: PolicyV,
    stmts: Seq<StmtV>,
    fs: Seq<StmtFactsV>,
    k: int,
    t: int,
)
    requires
        apply_stmts(b, stmts, fs, 0) is Ok,
        stmt_facts_wf(stmts, fs),
        0 <= k < stmts.len(),
        stmts[k] is Define,
        0 <= t < stmts[k]->Define_0.should_not_match.len(),
    ensures
        !self_test_matches(
            stmts[k]->Define_0,
            stmts[k]->Define_0.should_not_match[t],
            fs[k].snm[t],
        ),
{
    let s = stmts[k]->Define_0;
    lemma_apply_ok_no_err(b, stmts, fs, 0);
    assert(facts_at(fs, k) == fs[k]);
    assert(self_tests_result(s, fs[k]) is Ok);
    lemma_snm_all_fail(s, fs[k].snm, 0);
    assert(facts_list_at(fs[k].snm, t) == fs[k].snm[t]);
}

/// The forbidden-substring and forbidden-program rules short-circuit: a
/// command hitting either yields a forbidden match outright, the same for
/// any registered program specs and any filesystem facts — per-program spec
/// matching is never reached.
pub proof fn lemma_forbidden_rules_short_circuit(
    p: PolicyV,
    q: PolicyV,
    cmd: Seq<Seq<char>>,
    f1: Seq<TokenFacts>,
    f2: Seq<TokenFacts>,
)
    requires
        cmd.len() >= 1,
        q.forbidden_substrings == p.forbidden_substrings,
        q.forbidden_program_regexes == p.forbidden_program_regexes,
        first_substring_hit_from(p.forbidden_substrings, join_tokens(cmd), 0) >= 0
            || first_regex_hit_from(p.forbidden_program_regexes, spec_basename(cmd[0]), 0) >= 0,
    ensures
        check_model(p, cmd, f1) == check_model(q, cmd, f2),
        check_model(p, cmd, f1) matches EvaluationV::Match(DecisionV::Forbidden(_)),
{
}

/// The greatest severity among a sequence of evaluations.
pub open spec fn max_severity(evals: Seq<EvaluationV>) -> int
    decreases evals.len(),
{
    if evals.len() == 0 {
        0
    } else if severity(evals.last()) > max_severity(evals.drop_last()) {
        severity(evals.last())
    } else {
        max_severity(evals.drop_last())
    }
}

/// An evaluation is a match exactly when its severity is positive.
proof fn lemma_severity_match(e: EvaluationV)
    ensures
        (e is Match) <==> severity(e) > 0,
{
}

/// The combinator is the pointwise severity maximum: the combined verdict
/// is as grave as the gravest inner one, it is a match exactly when some
/// inner command matched, and it is one of the inner evaluations whenever
/// it is a match.
pub proof fn lemma_combine_is_severity_max(evals: Seq<EvaluationV>)
    ensures
        severity(combine_model(evals)) == max_severity(evals),
        (combine_model(evals) is Match) <==> exists|i: int|
            0 <= i < evals.len() && (#[trigger] evals[i]) is Match,
        combine_model(evals) is Match ==> exists|i: int|
            0 <= i < evals.len() && #[trigger] evals[i] == combine_model(evals),
    decreases evals.len(),
{
    if evals.len() == 0 {
    } else {
        let front = evals.drop_last();
        lemma_combine_is_severity_max(front);
        let c = combine_model(evals);
        let cf = combine_model(front);
        lemma_severity_match(c);
        lemma_severity_match(cf);
        lemma_severity_match(evals.last());
        if c is Match {
            if severity(evals.last()) > severity(cf) {
                assert(c == evals.last());
                assert(evals[evals.len() - 1] == c);
            } else {
                assert(c == cf);
                let i = choose|i: int| 0 <= i < front.len() && #[trigger] front[i] == cf;
                assert(evals[i] == cf);
            }
        }
        if exists|i: int| 0 <= i < evals.len() && (#[trigger] evals[i]) is Match {
            let i = choose|i: int| 0 <= i < evals.len() && (#[trigger] evals[i]) is Match;
            if i < evals.len() - 1 {
                assert(front[i] is Match);
            }
            assert(c is Match);
        }
    }
}

/// A prompt verdict never silently becomes an allow: under the `Never`
/// approval mode it maps to a refusal with the same reason, and under every
/// asking mode it maps to an approval request with the same reason.
pub proof fn lemma_prompt_mapping(reason: Seq<char>, mode: AskForApproval)
    ensures
        requirement_model(EvaluationV::Match(DecisionV::Prompt(reason)), AskForApproval::Never)
            == Some(ApprovalRequirementV::Forbidden(reason)),
        !(mode is Never) ==> requirement_model(EvaluationV::Match(DecisionV::Prompt(reason)), mode)
            == Some(ApprovalRequirementV::NeedsApproval(Some(reason))),
{
}

} // verus!
