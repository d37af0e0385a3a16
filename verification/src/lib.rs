//! A command-execution policy engine. Before an autonomous tool runs a
//! shell command, a deterministic policy layer decides whether to run it
//! silently, ask a human first, or refuse outright. This crate holds that
//! layer: a small declarative policy language and its compiler, the
//! compiled policy model, a structural argument matcher, a shell-script
//! decomposer for compound invocations, the severity-maximum rule that
//! combines the inner commands' verdicts, and the mapping from a verdict to
//! an approval requirement under the user's approval mode.
//!
//! Evaluation is pure given a compiled policy and the filesystem facts its
//! file matchers probe; the policy itself is immutable once built and safe
//! to share across concurrent evaluations.

pub mod approval;
pub mod compiler;
pub mod evaluate;
pub mod laws;
pub mod matcher;
pub mod outside;
pub mod pdl_lex;
pub mod pdl_parse;
pub mod policy;
pub mod shell;
pub mod text;

pub use approval::evaluate;
pub use approval::evaluate_with_policy;
pub use approval::map_to_requirement;
pub use compiler::PolicyParser;
pub use compiler::compile;
pub use evaluate::combine_evaluations;
pub use matcher::TokenFacts;
pub use pdl_lex::CompileError;
pub use pdl_lex::ErrorKind;
pub use policy::ApprovalRequirement;
pub use policy::ArgMatcher;
pub use policy::AskForApproval;
pub use policy::Decision;
pub use policy::Evaluation;
pub use policy::Opt;
pub use policy::OptKind;
pub use policy::Policy;
pub use policy::ProgramSpec;
pub use policy::RegexRule;
pub use shell::parse_shell_lc_plain_commands;
