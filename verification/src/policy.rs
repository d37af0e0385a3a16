//! The compiled policy model: program specs, forbidden rules, the per-command
//! verdict, the engine's overall answer, and the approval requirement handed
//! to the process-spawning collaborator.

use vstd::prelude::*;

verus! {

/// A typed predicate over one argument token, or over a variadic tail.
/// `ReadableFiles`, `ReadableFilesOrCwd` and `UnverifiedVarargs` are variadic
/// and may only stand last among a spec's positional matchers.
#[derive(Debug, Clone, Copy, PartialEq, Eq, Structural)]
pub enum ArgMatcher {
    /// Any token, taken as an opaque value, never as a file path.
    OpaqueNonFile,
    /// A path naming a readable file.
    ReadableFile,
    /// A path that may be written: it exists, or its parent directory does.
    WriteableFile,
    /// One or more paths, each naming a readable file.
    ReadableFiles,
    /// Zero or more readable paths; an empty tail defaults to the current
    /// directory.
    ReadableFilesOrCwd,
    /// A decimal integer greater than zero.
    PositiveInteger,
    /// A `sed`-style edit script.
    SedCommand,
    /// Absorbs all remaining tokens unconditionally: an explicit escape
    /// hatch, never a silent default.
    UnverifiedVarargs,
}

impl ArgMatcher {
    /// Variadic matchers consume a whole tail of tokens.
    pub open spec fn is_variadic(self) -> bool {
        self is ReadableFiles || self is ReadableFilesOrCwd || self is UnverifiedVarargs
    }
}

/// How an option takes its value.
#[derive(Debug, Clone, Copy, PartialEq, Eq, Structural)]
pub enum OptKind {
    /// The option stands alone.
    Flag,
    /// The option consumes a value token, validated by the matcher.
    Value(ArgMatcher),
}

/// One declared option of a program spec.
#[derive(Debug, Clone)]
pub struct Opt {
    pub name: String,
    pub kind: OptKind,
    pub required: bool,
}

/// Mathematical model of an [`Opt`].
pub struct OptV {
    pub name: Seq<char>,
    pub kind: OptKind,
    pub required: bool,
}

impl View for Opt {
    type V = OptV;

    open spec fn view(&self) -> OptV {
        OptV { name: self.name@, kind: self.kind, required: self.required }
    }
}

/// The verdict for one command: allow it, ask first, or refuse.
#[derive(Debug, Clone, PartialEq, Eq)]
pub enum Decision {
    Allow,
    Prompt(String),
    Forbidden(String),
}

/// Mathematical model of a [`Decision`].
pub enum DecisionV {
    Allow,
    Prompt(Seq<char>),
    Forbidden(Seq<char>),
}

impl View for Decision {
    type V = DecisionV;

    open spec fn view(&self) -> DecisionV {
        match self {
            Decision::Allow => DecisionV::Allow,
            Decision::Prompt(r) => DecisionV::Prompt(r@),
            Decision::Forbidden(r) => DecisionV::Forbidden(r@),
        }
    }
}

/// One accepted argument shape for a named program. Several specs may be
/// registered for one program name; they are tried in registration order.
/// A spec whose decision is `Forbidden` matches every invocation of its
/// program regardless of arguments: it bans the name with an explanation.
#[derive(Debug, Clone)]
pub struct ProgramSpec {
    /// The program name the spec is registered under (a basename).
    pub program: String,
    /// When non-empty and the program token is an absolute path, the token's
    /// directory must be one of these for the spec to apply.
    pub allowed_install_dirs: Vec<String>,
    /// Accept several single-character flags bundled after one `-`.
    pub option_bundling: bool,
    /// Accept `--name=value` as one token.
    pub combined_format: bool,
    /// The declared options, with unique names.
    pub options: Vec<Opt>,
    /// Matchers for the non-option tokens, in order; only the last may be
    /// variadic.
    pub positional_args: Vec<ArgMatcher>,
    /// The verdict a structural match yields.
    pub decision: Decision,
    /// Compiled-in self-tests: token lists that must match this spec.
    pub should_match: Vec<Vec<String>>,
    /// Compiled-in self-tests: token lists that must not match this spec.
    pub should_not_match: Vec<Vec<String>>,
}

/// Mathematical model of a [`ProgramSpec`].
pub struct ProgramSpecV {
    pub program: Seq<char>,
    pub allowed_install_dirs: Seq<Seq<char>>,
    pub option_bundling: bool,
    pub combined_format: bool,
    pub options: Seq<OptV>,
    pub positional_args: Seq<ArgMatcher>,
    pub decision: DecisionV,
    pub should_match: Seq<Seq<Seq<char>>>,
    pub should_not_match: Seq<Seq<Seq<char>>>,
}

impl View for ProgramSpec {
    type V = ProgramSpecV;

    open spec fn view(&self) -> ProgramSpecV {
        ProgramSpecV {
            program: self.program@,
            allowed_install_dirs: self.allowed_install_dirs.deep_view(),
            option_bundling: self.option_bundling,
            combined_format: self.combined_format,
            options: self.options@.map_values(|o: Opt| o@),
            positional_args: self.positional_args@,
            decision: self.decision@,
            should_match: self.should_match.deep_view(),
            should_not_match: self.should_not_match.deep_view(),
        }
    }
}

/// A forbidden-program-name rule: a regular expression over the program's
/// basename, with the reason the ban reports.
#[derive(Debug, Clone)]
pub struct RegexRule {
    pub pattern: String,
    pub reason: String,
}

/// Mathematical model of a [`RegexRule`].
pub struct RegexRuleV {
    pub pattern: Seq<char>,
    pub reason: Seq<char>,
}

impl View for RegexRule {
    type V = RegexRuleV;

    open spec fn view(&self) -> RegexRuleV {
        RegexRuleV { pattern: self.pattern@, reason: self.reason@ }
    }
}

/// The compiled, immutable policy: the registered program specs in
/// registration order, and the two forbidden lists.
#[derive(Debug, Clone)]
pub struct Policy {
    pub programs: Vec<ProgramSpec>,
    pub forbidden_program_regexes: Vec<RegexRule>,
    pub forbidden_substrings: Vec<String>,
}

/// Mathematical model of a [`Policy`].
pub struct PolicyV {
    pub programs: Seq<ProgramSpecV>,
    pub forbidden_program_regexes: Seq<RegexRuleV>,
    pub forbidden_substrings: Seq<Seq<char>>,
}

impl View for Policy {
    type V = PolicyV;

    open spec fn view(&self) -> PolicyV {
        PolicyV {
            programs: self.programs@.map_values(|s: ProgramSpec| s@),
            forbidden_program_regexes: self.forbidden_program_regexes@.map_values(
                |r: RegexRule| r@,
            ),
            forbidden_substrings: self.forbidden_substrings.deep_view(),
        }
    }
}

/// The engine's overall answer for one (possibly decomposed) invocation.
/// `NoMatch` is no failure: the policy has no opinion.
#[derive(Debug, Clone, PartialEq, Eq)]
pub enum Evaluation {
    Match(Decision),
    NoMatch,
}

/// Mathematical model of an [`Evaluation`].
pub enum EvaluationV {
    Match(DecisionV),
    NoMatch,
}

impl View for Evaluation {
    type V = EvaluationV;

    open spec fn view(&self) -> EvaluationV {
        match self {
            Evaluation::Match(d) => EvaluationV::Match(d@),
            Evaluation::NoMatch => EvaluationV::NoMatch,
        }
    }
}

/// What the process-spawning collaborator is told once the user's approval
/// mode has been folded in.
#[derive(Debug, Clone, PartialEq, Eq)]
pub enum ApprovalRequirement {
    /// Run without asking.
    Skip,
    /// Ask a human first.
    NeedsApproval(Option<String>),
    /// Refuse outright.
    Forbidden(String),
}

/// Mathematical model of an [`ApprovalRequirement`].
pub enum ApprovalRequirementV {
    Skip,
    NeedsApproval(Option<Seq<char>>),
    Forbidden(Seq<char>),
}

impl View for ApprovalRequirement {
    type V = ApprovalRequirementV;

    open spec fn view(&self) -> ApprovalRequirementV {
        match self {
            ApprovalRequirement::Skip => ApprovalRequirementV::Skip,
            ApprovalRequirement::NeedsApproval(r) => ApprovalRequirementV::NeedsApproval(
                match r {
                    Some(s) => Some(s@),
                    None => None,
                },
            ),
            ApprovalRequirement::Forbidden(r) => ApprovalRequirementV::Forbidden(r@),
        }
    }
}

/// The user's configured approval mode. Under `Never` the user has disabled
/// all prompts; the other modes may ask.
#[derive(Debug, Clone, Copy, PartialEq, Eq, Structural)]
pub enum AskForApproval {
    UnlessTrusted,
    OnFailure,
    OnRequest,
    Never,
}

} // verus!
