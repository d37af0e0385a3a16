//! The approval mapper: folds the engine's evaluation together with the
//! user's approval mode into the requirement the process-spawning
//! collaborator consumes; and the top-level entry points that decompose a
//! raw argv and check its inner commands.

use vstd::prelude::*;
use crate::evaluate::{check_multiple_model, gather_facts};
use crate::matcher::TokenFacts;
use crate::policy::{ApprovalRequirement, ApprovalRequirementV, AskForApproval, Decision,
    DecisionV, Evaluation, EvaluationV, Policy};
use crate::shell::{effective_commands, parse_shell_lc_plain_commands};

verus! {

/// What an evaluation requires under an approval mode: a forbidden match
/// stays forbidden; a prompt match needs approval, except under `Never`,
/// where an unresolvable ask becomes a refusal, never a silent allow; an
/// allow match skips approval; no match communicates nothing, and the
/// caller falls back to its own default heuristic.
pub open spec fn requirement_model(e: EvaluationV, mode: AskForApproval) -> Option<
    ApprovalRequirementV,
> {
    match e {
        EvaluationV::NoMatch => None,
        EvaluationV::Match(DecisionV::Allow) => Some(ApprovalRequirementV::Skip),
        EvaluationV::Match(DecisionV::Forbidden(r)) => Some(ApprovalRequirementV::Forbidden(r)),
        EvaluationV::Match(DecisionV::Prompt(r)) => if mode is Never {
            Some(ApprovalRequirementV::Forbidden(r))
        } else {
            Some(ApprovalRequirementV::NeedsApproval(Some(r)))
        },
    }
}

/// Folds an evaluation and the user's approval mode into the requirement
/// handed to the process-spawning collaborator.
pub fn map_to_requirement(evaluation: &Evaluation, approval_policy: AskForApproval) -> (r: Option<
    ApprovalRequirement,
>)
    ensures
        match r {
            Some(a) => requirement_model(evaluation@, approval_policy) == Some(a@),
            None => requirement_model(evaluation@, approval_policy) is None,
        },
{
    match evaluation {
        Evaluation::NoMatch => None,
        Evaluation::Match(Decision::Allow) => Some(ApprovalRequirement::Skip),
        Evaluation::Match(Decision::Forbidden(reason)) => Some(
            ApprovalRequirement::Forbidden(reason.clone()),
        ),
        Evaluation::Match(Decision::Prompt(reason)) => {
            match approval_policy {
                AskForApproval::Never => Some(ApprovalRequirement::Forbidden(reason.clone())),
                _ => Some(ApprovalRequirement::NeedsApproval(Some(reason.clone()))),
            }
        },
    }
}

/// Copies a command's tokens.
fn clone_command(v: &Vec<String>) -> (r: Vec<String>)
    ensures
        r@ == v@,
{
    let mut r: Vec<String> = Vec::new();
    let mut i: usize = 0;
    while i < v.len()
        invariant
            i <= v@.len(),
            r@ == v@.take(i as int),
        decreases v@.len() - i,
    {
        r.push(v[i].clone());
        proof {
            assert(v@.take((i + 1) as int) =~= v@.take(i as int).push(v@[i as int]));
        }
        i = i + 1;
    }
    proof {
        assert(v@.take(v@.len() as int) =~= v@);
    }
    r
}

/// Evaluates a raw argv against the policy: the argv is decomposed into its
/// inner plain commands where it is a recognized inline-shell invocation,
/// and the inner commands' verdicts are combined by maximum severity.
pub fn evaluate(policy: &Policy, argv: &Vec<String>) -> (r: Evaluation)
    ensures
        exists|facts: Seq<Seq<TokenFacts>>|
            facts.len() == effective_commands(argv.deep_view()).len() && r@
                == check_multiple_model(policy@, effective_commands(argv.deep_view()), facts),
{
    let cmds: Vec<Vec<String>> = match parse_shell_lc_plain_commands(argv) {
        Some(cs) => cs,
        None => {
            let mut one: Vec<Vec<String>> = Vec::new();
            one.push(clone_command(argv));
            proof {
                assert(one.deep_view() =~= seq![argv.deep_view()]);
            }
            one
        },
    };
    proof {
        assert(cmds.deep_view() == effective_commands(argv.deep_view()));
    }
    policy.check_multiple(&cmds)
}

/// Evaluates a raw argv and folds in the approval mode: what the command
/// requires before it may be spawned, or nothing when the policy has no
/// opinion.
pub fn evaluate_with_policy(
    policy: &Policy,
    command: &Vec<String>,
    approval_policy: AskForApproval,
) -> (r: Option<ApprovalRequirement>)
    ensures
        exists|facts: Seq<Seq<TokenFacts>>|
            #![trigger facts.len()]
            {
                let e = check_multiple_model(
                    policy@,
                    effective_commands(command.deep_view()),
                    facts,
                );
                &&& facts.len() == effective_commands(command.deep_view()).len()
                &&& match r {
                    Some(a) => requirement_model(e, approval_policy) == Some(a@),
                    None => requirement_model(e, approval_policy) is None,
                }
            },
{
    let evaluation = evaluate(policy, command);
    map_to_requirement(&evaluation, approval_policy)
}

} // verus!
