//! The policy description language's grammar. A source is a sequence of
//! statements `define_program(...)`, `forbid_substrings([...])` and
//! `forbid_program_regex(pattern, reason)`; this module turns the lexer's
//! tokens into semantic statements, rejecting duplicate option names and
//! misplaced variadic matchers as it freezes each program spec.

use vstd::prelude::*;
use crate::pdl_lex::{ErrorKind, ErrorKindV, PdlTok, PdlTokV, lex_pdl, lex_pdl_exec};
use crate::policy::{ArgMatcher, Decision, DecisionV, Opt, OptKind, OptV, ProgramSpec,
    ProgramSpecV, RegexRule, RegexRuleV};
use crate::text::{chars_eq_str, chars_to_string};

verus! {

/// One semantic statement of a policy source.
#[derive(Debug)]
pub enum Stmt {
    Define(ProgramSpec),
    ForbidSubstrings(Vec<String>),
    ForbidProgramRegex(RegexRule),
}

/// Mathematical model of a [`Stmt`].
pub enum StmtV {
    Define(ProgramSpecV),
    ForbidSubstrings(Seq<Seq<char>>),
    ForbidProgramRegex(RegexRuleV),
}

impl View for Stmt {
    type V = StmtV;

    open spec fn view(&self) -> StmtV {
        match self {
            Stmt::Define(s) => StmtV::Define(s@),
            Stmt::ForbidSubstrings(ss) => StmtV::ForbidSubstrings(ss.deep_view()),
            Stmt::ForbidProgramRegex(rr) => StmtV::ForbidProgramRegex(rr@),
        }
    }
}

/// The named arguments of one `define_program` call, gathered before the
/// spec is frozen.
pub struct Draft {
    pub program: Option<String>,
    pub allowed_install_dirs: Vec<String>,
    pub option_bundling: bool,
    pub combined_format: bool,
    pub options: Vec<Opt>,
    pub positional_args: Vec<ArgMatcher>,
    pub forbidden: Option<String>,
    pub prompt: Option<String>,
    pub should_match: Vec<Vec<String>>,
    pub should_not_match: Vec<Vec<String>>,
}

/// Mathematical model of a [`Draft`].
pub struct DraftV {
    pub program: Option<Seq<char>>,
    pub allowed_install_dirs: Seq<Seq<char>>,
    pub option_bundling: bool,
    pub combined_format: bool,
    pub options: Seq<OptV>,
    pub positional_args: Seq<ArgMatcher>,
    pub forbidden: Option<Seq<char>>,
    pub prompt: Option<Seq<char>>,
    pub should_match: Seq<Seq<Seq<char>>>,
    pub should_not_match: Seq<Seq<Seq<char>>>,
}

impl View for Draft {
    type V = DraftV;

    open spec fn view(&self) -> DraftV {
        DraftV {
            program: match &self.program {
                Some(p) => Some(p@),
                None => None,
            },
            allowed_install_dirs: self.allowed_install_dirs.deep_view(),
            option_bundling: self.option_bundling,
            combined_format: self.combined_format,
            options: self.options@.map_values(|o: Opt| o@),
            positional_args: self.positional_args@,
            forbidden: match &self.forbidden {
                Some(p) => Some(p@),
                None => None,
            },
            prompt: match &self.prompt {
                Some(p) => Some(p@),
                None => None,
            },
            should_match: self.should_match.deep_view(),
            should_not_match: self.should_not_match.deep_view(),
        }
    }
}

/// A fresh draft: no argument given yet.
pub open spec fn empty_draft() -> DraftV {
    DraftV {
        program: None,
        allowed_install_dirs: Seq::empty(),
        option_bundling: false,
        combined_format: false,
        options: Seq::empty(),
        positional_args: Seq::empty(),
        forbidden: None,
        prompt: None,
        should_match: Seq::empty(),
        should_not_match: Seq::empty(),
    }
}

/// A string literal at token position `i`.
pub open spec fn parse_string_tok(toks: Seq<PdlTokV>, i: int) -> Result<
    (Seq<char>, int),
    ErrorKindV,
> {
    if 0 <= i < toks.len() {
        match toks[i] {
            PdlTokV::Str(s) => Ok((s, i + 1)),
            _ => Err(ErrorKindV::Syntax { offset: i }),
        }
    } else {
        Err(ErrorKindV::Syntax { offset: if i < 0 { 0 } else { i } })
    }
}

/// A boolean literal (`True` / `true` / `False` / `false`) at position `i`.
pub open spec fn parse_bool_tok(toks: Seq<PdlTokV>, i: int) -> Result<(bool, int), ErrorKindV> {
    if 0 <= i < toks.len() {
        match toks[i] {
            PdlTokV::Ident(w) => if w == "True"@ || w == "true"@ {
                Ok((true, i + 1))
            } else if w == "False"@ || w == "false"@ {
                Ok((false, i + 1))
            } else {
                Err(ErrorKindV::Syntax { offset: i })
            },
            _ => Err(ErrorKindV::Syntax { offset: i }),
        }
    } else {
        Err(ErrorKindV::Syntax { offset: if i < 0 { 0 } else { i } })
    }
}

/// The matcher a bare identifier names.
pub open spec fn matcher_of_name(w: Seq<char>) -> Option<ArgMatcher> {
    if w == "ARG_OPAQUE_VALUE"@ {
        Some(ArgMatcher::OpaqueNonFile)
    } else if w == "ARG_RFILE"@ {
        Some(ArgMatcher::ReadableFile)
    } else if w == "ARG_WFILE"@ {
        Some(ArgMatcher::WriteableFile)
    } else if w == "ARG_RFILES"@ {
        Some(ArgMatcher::ReadableFiles)
    } else if w == "ARG_RFILES_OR_CWD"@ {
        Some(ArgMatcher::ReadableFilesOrCwd)
    } else if w == "ARG_POS_INT"@ {
        Some(ArgMatcher::PositiveInteger)
    } else if w == "ARG_SED_COMMAND"@ {
        Some(ArgMatcher::SedCommand)
    } else if w == "ARG_UNVERIFIED_VARARGS"@ {
        Some(ArgMatcher::UnverifiedVarargs)
    } else {
        None
    }
}

/// A matcher identifier at position `i`.
pub open spec fn parse_matcher_tok(toks: Seq<PdlTokV>, i: int) -> Result<
    (ArgMatcher, int),
    ErrorKindV,
> {
    if 0 <= i < toks.len() {
        match toks[i] {
            PdlTokV::Ident(w) => match matcher_of_name(w) {
                Some(m) => Ok((m, i + 1)),
                None => Err(ErrorKindV::BadArgument { name: w }),
            },
            _ => Err(ErrorKindV::Syntax { offset: i }),
        }
    } else {
        Err(ErrorKindV::Syntax { offset: if i < 0 { 0 } else { i } })
    }
}

/// The elements of a `[...]` list of string literals, after the opening
/// bracket; a trailing comma is accepted.
pub open spec fn parse_string_items(
    toks: Seq<PdlTokV>,
    i: int,
    acc: Seq<Seq<char>>,
    fuel: nat,
) -> Result<(Seq<Seq<char>>, int), ErrorKindV>
    decreases fuel,
{
    if i < 0 || i >= toks.len() || fuel == 0 {
        Err(ErrorKindV::Syntax { offset: if i < 0 { 0 } else { i } })
    } else if toks[i] is RBracket {
        Ok((acc, i + 1))
    } else {
        match parse_string_tok(toks, i) {
            Ok(p) => if p.1 < toks.len() && toks[p.1] is Comma {
                parse_string_items(toks, p.1 + 1, acc.push(p.0), (fuel - 1) as nat)
            } else if p.1 < toks.len() && toks[p.1] is RBracket {
                Ok((acc.push(p.0), p.1 + 1))
            } else {
                Err(ErrorKindV::Syntax { offset: p.1 })
            },
            Err(e) => Err(e),
        }
    }
}

/// A `[...]` list of string literals at position `i`.
pub open spec fn parse_string_list(toks: Seq<PdlTokV>, i: int) -> Result<
    (Seq<Seq<char>>, int),
    ErrorKindV,
> {
    if 0 <= i < toks.len() && toks[i] is LBracket {
        parse_string_items(toks, i + 1, Seq::empty(), toks.len() as nat)
    } else {
        Err(ErrorKindV::Syntax { offset: if i < 0 { 0 } else { i } })
    }
}

/// The elements of a `[...]` list of matcher identifiers.
pub open spec fn parse_matcher_items(
    toks: Seq<PdlTokV>,
    i: int,
    acc: Seq<ArgMatcher>,
    fuel: nat,
) -> Result<(Seq<ArgMatcher>, int), ErrorKindV>
    decreases fuel,
{
    if i < 0 || i >= toks.len() || fuel == 0 {
        Err(ErrorKindV::Syntax { offset: if i < 0 { 0 } else { i } })
    } else if toks[i] is RBracket {
        Ok((acc, i + 1))
    } else {
        match parse_matcher_tok(toks, i) {
            Ok(p) => if p.1 < toks.len() && toks[p.1] is Comma {
                parse_matcher_items(toks, p.1 + 1, acc.push(p.0), (fuel - 1) as nat)
            } else if p.1 < toks.len() && toks[p.1] is RBracket {
                Ok((acc.push(p.0), p.1 + 1))
            } else {
                Err(ErrorKindV::Syntax { offset: p.1 })
            },
            Err(e) => Err(e),
        }
    }
}

/// A `[...]` list of matcher identifiers at position `i`.
pub open spec fn parse_matcher_list(toks: Seq<PdlTokV>, i: int) -> Result<
    (Seq<ArgMatcher>, int),
    ErrorKindV,
> {
    if 0 <= i < toks.len() && toks[i] is LBracket {
        parse_matcher_items(toks, i + 1, Seq::empty(), toks.len() as nat)
    } else {
        Err(ErrorKindV::Syntax { offset: if i < 0 { 0 } else { i } })
    }
}

/// One option declaration: `opt(name, TYPE)`, `opt(name, TYPE,
/// required=bool)` or `flag(name)`.
pub open spec fn parse_opt(toks: Seq<PdlTokV>, i: int) -> Result<(OptV, int), ErrorKindV> {
    if !(0 <= i < toks.len()) {
        Err(ErrorKindV::Syntax { offset: if i < 0 { 0 } else { i } })
    } else {
        match toks[i] {
            PdlTokV::Ident(w) => if !(i + 1 < toks.len() && toks[i + 1] is LParen) {
                Err(ErrorKindV::Syntax { offset: i + 1 })
            } else if w == "flag"@ {
                match parse_string_tok(toks, i + 2) {
                    Ok(p) => if p.1 < toks.len() && toks[p.1] is RParen {
                        Ok((OptV { name: p.0, kind: OptKind::Flag, required: false }, p.1 + 1))
                    } else {
                        Err(ErrorKindV::Syntax { offset: p.1 })
                    },
                    Err(e) => Err(e),
                }
            } else if w == "opt"@ {
                match parse_string_tok(toks, i + 2) {
                    Ok(p) => if !(p.1 < toks.len() && toks[p.1] is Comma) {
                        Err(ErrorKindV::Syntax { offset: p.1 })
                    } else {
                        match parse_matcher_tok(toks, p.1 + 1) {
                            Ok(q) => if q.1 < toks.len() && toks[q.1] is RParen {
                                Ok(
                                    (
                                        OptV {
                                            name: p.0,
                                            kind: OptKind::Value(q.0),
                                            required: false,
                                        },
                                        q.1 + 1,
                                    ),
                                )
                            } else if q.1 + 2 < toks.len() && toks[q.1] is Comma && (toks[q.1 + 1]
                                matches PdlTokV::Ident(rw) && rw == "required"@) && toks[q.1 + 2]
                                is Eq {
                                match parse_bool_tok(toks, q.1 + 3) {
                                    Ok(b) => if b.1 < toks.len() && toks[b.1] is RParen {
                                        Ok(
                                            (
                                                OptV {
                                                    name: p.0,
                                                    kind: OptKind::Value(q.0),
                                                    required: b.0,
                                                },
                                                b.1 + 1,
                                            ),
                                        )
                                    } else {
                                        Err(ErrorKindV::Syntax { offset: b.1 })
                                    },
                                    Err(e) => Err(e),
                                }
                            } else {
                                Err(ErrorKindV::Syntax { offset: q.1 })
                            },
                            Err(e) => Err(e),
                        }
                    },
                    Err(e) => Err(e),
                }
            } else {
                Err(ErrorKindV::BadArgument { name: w })
            },
            _ => Err(ErrorKindV::Syntax { offset: i }),
        }
    }
}

/// The elements of a `[...]` list of option declarations.
pub open spec fn parse_opt_items(
    toks: Seq<PdlTokV>,
    i: int,
    acc: Seq<OptV>,
    fuel: nat,
) -> Result<(Seq<OptV>, int), ErrorKindV>
    decreases fuel,
{
    if i < 0 || i >= toks.len() || fuel == 0 {
        Err(ErrorKindV::Syntax { offset: if i < 0 { 0 } else { i } })
    } else if toks[i] is RBracket {
        Ok((acc, i + 1))
    } else {
        match parse_opt(toks, i) {
            Ok(p) => if p.1 < toks.len() && toks[p.1] is Comma {
                parse_opt_items(toks, p.1 + 1, acc.push(p.0), (fuel - 1) as nat)
            } else if p.1 < toks.len() && toks[p.1] is RBracket {
                Ok((acc.push(p.0), p.1 + 1))
            } else {
                Err(ErrorKindV::Syntax { offset: p.1 })
            },
            Err(e) => Err(e),
        }
    }
}

/// A `[...]` list of option declarations at position `i`.
pub open spec fn parse_opt_list(toks: Seq<PdlTokV>, i: int) -> Result<
    (Seq<OptV>, int),
    ErrorKindV,
> {
    if 0 <= i < toks.len() && toks[i] is LBracket {
        parse_opt_items(toks, i + 1, Seq::empty(), toks.len() as nat)
    } else {
        Err(ErrorKindV::Syntax { offset: if i < 0 { 0 } else { i } })
    }
}

/// The elements of a `[...]` list of token lists (the self-tests).
pub open spec fn parse_list_items(
    toks: Seq<PdlTokV>,
    i: int,
    acc: Seq<Seq<Seq<char>>>,
    fuel: nat,
) -> Result<(Seq<Seq<Seq<char>>>, int), ErrorKindV>
    decreases fuel,
{
    if i < 0 || i >= toks.len() || fuel == 0 {
        Err(ErrorKindV::Syntax { offset: if i < 0 { 0 } else { i } })
    } else if toks[i] is RBracket {
        Ok((acc, i + 1))
    } else {
        match parse_string_list(toks, i) {
            Ok(p) => if p.1 < toks.len() && toks[p.1] is Comma {
                parse_list_items(toks, p.1 + 1, acc.push(p.0), (fuel - 1) as nat)
            } else if p.1 < toks.len() && toks[p.1] is RBracket {
                Ok((acc.push(p.0), p.1 + 1))
            } else {
                Err(ErrorKindV::Syntax { offset: p.1 })
            },
            Err(e) => Err(e),
        }
    }
}

/// A `[...]` list of token lists at position `i`.
pub open spec fn parse_list_of_lists(toks: Seq<PdlTokV>, i: int) -> Result<
    (Seq<Seq<Seq<char>>>, int),
    ErrorKindV,
> {
    if 0 <= i < toks.len() && toks[i] is LBracket {
        parse_list_items(toks, i + 1, Seq::empty(), toks.len() as nat)
    } else {
        Err(ErrorKindV::Syntax { offset: if i < 0 { 0 } else { i } })
    }
}

/// One named argument's value, dispatched on the argument's name, folded
/// into the draft.
pub open spec fn parse_named_value(
    toks: Seq<PdlTokV>,
    i: int,
    name: Seq<char>,
    d: DraftV,
) -> Result<(DraftV, int), ErrorKindV> {
    if name == "program"@ {
        match parse_string_tok(toks, i) {
            Ok(p) => Ok((DraftV { program: Some(p.0), ..d }, p.1)),
            Err(e) => Err(e),
        }
    } else if name == "system_path"@ {
        match parse_string_list(toks, i) {
            Ok(p) => Ok((DraftV { allowed_install_dirs: p.0, ..d }, p.1)),
            Err(e) => Err(e),
        }
    } else if name == "option_bundling"@ {
        match parse_bool_tok(toks, i) {
            Ok(p) => Ok((DraftV { option_bundling: p.0, ..d }, p.1)),
            Err(e) => Err(e),
        }
    } else if name == "combined_format"@ {
        match parse_bool_tok(toks, i) {
            Ok(p) => Ok((DraftV { combined_format: p.0, ..d }, p.1)),
            Err(e) => Err(e),
        }
    } else if name == "options"@ {
        match parse_opt_list(toks, i) {
            Ok(p) => Ok((DraftV { options: p.0, ..d }, p.1)),
            Err(e) => Err(e),
        }
    } else if name == "args"@ {
        match parse_matcher_list(toks, i) {
            Ok(p) => Ok((DraftV { positional_args: p.0, ..d }, p.1)),
            Err(e) => Err(e),
        }
    } else if name == "forbidden"@ {
        match parse_string_tok(toks, i) {
            Ok(p) => Ok((DraftV { forbidden: Some(p.0), ..d }, p.1)),
            Err(e) => Err(e),
        }
    } else if name == "prompt"@ {
        match parse_string_tok(toks, i) {
            Ok(p) => Ok((DraftV { prompt: Some(p.0), ..d }, p.1)),
            Err(e) => Err(e),
        }
    } else if name == "should_match"@ {
        match parse_list_of_lists(toks, i) {
            Ok(p) => Ok((DraftV { should_match: p.0, ..d }, p.1)),
            Err(e) => Err(e),
        }
    } else if name == "should_not_match"@ {
        match parse_list_of_lists(toks, i) {
            Ok(p) => Ok((DraftV { should_not_match: p.0, ..d }, p.1)),
            Err(e) => Err(e),
        }
    } else {
        Err(ErrorKindV::BadArgument { name: name })
    }
}

/// The arguments of a `define_program` call, from the position after the
/// opening parenthesis: an optional leading positional program name, then
/// named arguments, up to the closing parenthesis.
pub open spec fn parse_define_args(
    toks: Seq<PdlTokV>,
    i: int,
    d: DraftV,
    first: bool,
    fuel: nat,
) -> Result<(DraftV, int), ErrorKindV>
    decreases fuel,
{
    if i < 0 || i >= toks.len() || fuel == 0 {
        Err(ErrorKindV::Syntax { offset: if i < 0 { 0 } else { i } })
    } else if toks[i] is RParen {
        Ok((d, i + 1))
    } else if first && toks[i] is Str {
        let d2 = DraftV { program: Some(toks[i]->Str_0), ..d };
        if i + 1 < toks.len() && toks[i + 1] is Comma {
            parse_define_args(toks, i + 2, d2, false, (fuel - 1) as nat)
        } else if i + 1 < toks.len() && toks[i + 1] is RParen {
            Ok((d2, i + 2))
        } else {
            Err(ErrorKindV::Syntax { offset: i + 1 })
        }
    } else {
        match toks[i] {
            PdlTokV::Ident(name) => if i + 1 < toks.len() && toks[i + 1] is Eq {
                match parse_named_value(toks, i + 2, name, d) {
                    Ok(p) => if p.1 < toks.len() && toks[p.1] is Comma {
                        parse_define_args(toks, p.1 + 1, p.0, false, (fuel - 1) as nat)
                    } else if p.1 < toks.len() && toks[p.1] is RParen {
                        Ok((p.0, p.1 + 1))
                    } else {
                        Err(ErrorKindV::Syntax { offset: p.1 })
                    },
                    Err(e) => Err(e),
                }
            } else {
                Err(ErrorKindV::Syntax { offset: i + 1 })
            },
            _ => Err(ErrorKindV::Syntax { offset: i }),
        }
    }
}

/// The first option whose name already occurred earlier, or `-1`.
pub open spec fn find_dup_from(opts: Seq<OptV>, i: int) -> int
    decreases opts.len() - i,
{
    if i < 0 || i >= opts.len() {
        -1
    } else if exists|j: int| 0 <= j < i && (#[trigger] opts[j]).name == opts[i].name {
        i
    } else {
        find_dup_from(opts, i + 1)
    }
}

/// No variadic matcher stands before the last positional slot.
pub open spec fn variadic_ok(pargs: Seq<ArgMatcher>) -> bool {
    forall|j: int| 0 <= j < pargs.len() - 1 ==> !(#[trigger] pargs[j]).is_variadic()
}

/// Freezes a draft into a program spec: the program name must be given,
/// option names must be unique, and only the last positional matcher may be
/// variadic. `forbidden` wins over `prompt`; with neither the match
/// decision is `Allow`.
pub open spec fn finalize_draft(d: DraftV) -> Result<ProgramSpecV, ErrorKindV> {
    match d.program {
        None => Err(ErrorKindV::BadArgument { name: "program"@ }),
        Some(program) => {
            let dup = find_dup_from(d.options, 0);
            if dup >= 0 {
                Err(ErrorKindV::DuplicateOption { option: d.options[dup].name })
            } else if !variadic_ok(d.positional_args) {
                Err(ErrorKindV::VariadicNotLast { program: program })
            } else {
                Ok(
                    ProgramSpecV {
                        program: program,
                        allowed_install_dirs: d.allowed_install_dirs,
                        option_bundling: d.option_bundling,
                        combined_format: d.combined_format,
                        options: d.options,
                        positional_args: d.positional_args,
                        decision: match d.forbidden {
                            Some(r) => DecisionV::Forbidden(r),
                            None => match d.prompt {
                                Some(r) => DecisionV::Prompt(r),
                                None => DecisionV::Allow,
                            },
                        },
                        should_match: d.should_match,
                        should_not_match: d.should_not_match,
                    },
                )
            }
        },
    }
}

/// One top-level statement at position `i`.
pub open spec fn parse_stmt(toks: Seq<PdlTokV>, i: int) -> Result<(StmtV, int), ErrorKindV> {
    if !(0 <= i < toks.len()) {
        Err(ErrorKindV::Syntax { offset: if i < 0 { 0 } else { i } })
    } else {
        match toks[i] {
            PdlTokV::Ident(name) => if !(i + 1 < toks.len() && toks[i + 1] is LParen) {
                Err(ErrorKindV::Syntax { offset: i + 1 })
            } else if name == "define_program"@ {
                match parse_define_args(toks, i + 2, empty_draft(), true, toks.len() as nat) {
                    Ok(p) => match finalize_draft(p.0) {
                        Ok(s) => Ok((StmtV::Define(s), p.1)),
                        Err(e) => Err(e),
                    },
                    Err(e) => Err(e),
                }
            } else if name == "forbid_substrings"@ {
                match parse_string_list(toks, i + 2) {
                    Ok(p) => if p.1 < toks.len() && toks[p.1] is RParen {
                        Ok((StmtV::ForbidSubstrings(p.0), p.1 + 1))
                    } else {
                        Err(ErrorKindV::Syntax { offset: p.1 })
                    },
                    Err(e) => Err(e),
                }
            } else if name == "forbid_program_regex"@ {
                match parse_string_tok(toks, i + 2) {
                    Ok(p) => if !(p.1 < toks.len() && toks[p.1] is Comma) {
                        Err(ErrorKindV::Syntax { offset: p.1 })
                    } else {
                        match parse_string_tok(toks, p.1 + 1) {
                            Ok(q) => if q.1 < toks.len() && toks[q.1] is RParen {
                                Ok(
                                    (
                                        StmtV::ForbidProgramRegex(
                                            RegexRuleV { pattern: p.0, reason: q.0 },
                                        ),
                                        q.1 + 1,
                                    ),
                                )
                            } else {
                                Err(ErrorKindV::Syntax { offset: q.1 })
                            },
                            Err(e) => Err(e),
                        }
                    },
                    Err(e) => Err(e),
                }
            } else {
                Err(ErrorKindV::UnknownStatement { name: name })
            },
            _ => Err(ErrorKindV::Syntax { offset: i }),
        }
    }
}

/// All statements from position `i` to the end of the token stream.
pub open spec fn parse_stmts(toks: Seq<PdlTokV>, i: int, fuel: nat) -> Result<
    Seq<StmtV>,
    ErrorKindV,
>
    decreases fuel,
{
    if i < 0 {
        Err(ErrorKindV::Syntax { offset: 0 })
    } else if i >= toks.len() {
        Ok(Seq::empty())
    } else if fuel == 0 {
        Err(ErrorKindV::Syntax { offset: i })
    } else {
        match parse_stmt(toks, i) {
            Ok(p) => match parse_stmts(toks, p.1, (fuel - 1) as nat) {
                Ok(rest) => Ok(seq![p.0] + rest),
                Err(e) => Err(e),
            },
            Err(e) => Err(e),
        }
    }
}

/// What parsing a whole policy source yields: its semantic statements, or
/// the first error.
pub open spec fn parse_model(src: Seq<char>) -> Result<Seq<StmtV>, ErrorKindV> {
    match lex_pdl(src, 0, src.len() as nat) {
        Ok(toks) => parse_stmts(toks, 0, toks.len() as nat),
        Err(e) => Err(e),
    }
}

/// The tokens' mathematical model.
pub open spec fn toks_view(toks: &Vec<PdlTok>) -> Seq<PdlTokV> {
    toks@.map_values(|t: PdlTok| t@)
}

/// The token at `j` exists and is a comma.
fn is_comma_at(toks: &Vec<PdlTok>, j: usize) -> (r: bool)
    ensures
        r == (j < toks@.len() && toks_view(toks)[j as int] is Comma),
{
    if j < toks.len() {
        proof {
            assert(toks_view(toks)[j as int] == toks@[j as int]@);
        }
        matches!(&toks[j], PdlTok::Comma)
    } else {
        false
    }
}

/// The token at `j` exists and is a closing parenthesis.
fn is_rparen_at(toks: &Vec<PdlTok>, j: usize) -> (r: bool)
    ensures
        r == (j < toks@.len() && toks_view(toks)[j as int] is RParen),
{
    if j < toks.len() {
        proof {
            assert(toks_view(toks)[j as int] == toks@[j as int]@);
        }
        matches!(&toks[j], PdlTok::RParen)
    } else {
        false
    }
}

/// The token at `j` exists and is a closing bracket.
fn is_rbracket_at(toks: &Vec<PdlTok>, j: usize) -> (r: bool)
    ensures
        r == (j < toks@.len() && toks_view(toks)[j as int] is RBracket),
{
    if j < toks.len() {
        proof {
            assert(toks_view(toks)[j as int] == toks@[j as int]@);
        }
        matches!(&toks[j], PdlTok::RBracket)
    } else {
        false
    }
}

/// The token at `j` exists and is an opening bracket.
fn is_lbracket_at(toks: &Vec<PdlTok>, j: usize) -> (r: bool)
    ensures
        r == (j < toks@.len() && toks_view(toks)[j as int] is LBracket),
{
    if j < toks.len() {
        proof {
            assert(toks_view(toks)[j as int] == toks@[j as int]@);
        }
        matches!(&toks[j], PdlTok::LBracket)
    } else {
        false
    }
}

/// The token at `j` exists and is an opening parenthesis.
fn is_lparen_at(toks: &Vec<PdlTok>, j: usize) -> (r: bool)
    ensures
        r == (j < toks@.len() && toks_view(toks)[j as int] is LParen),
{
    if j < toks.len() {
        proof {
            assert(toks_view(toks)[j as int] == toks@[j as int]@);
        }
        matches!(&toks[j], PdlTok::LParen)
    } else {
        false
    }
}

/// The token at `j` exists and is an equals sign.
fn is_eq_at(toks: &Vec<PdlTok>, j: usize) -> (r: bool)
    ensures
        r == (j < toks@.len() && toks_view(toks)[j as int] is Eq),
{
    if j < toks.len() {
        proof {
            assert(toks_view(toks)[j as int] == toks@[j as int]@);
        }
        matches!(&toks[j], PdlTok::Eq)
    } else {
        false
    }
}

/// Exec mirror of [`parse_string_tok`].
fn parse_string_exec(toks: &Vec<PdlTok>, i: usize) -> (r: Result<(String, usize), ErrorKind>)
    ensures
        ({
            let m = parse_string_tok(toks_view(toks), i as int);
            match r {
                Ok(p) => p.1 <= toks@.len() && m == Ok::<_, ErrorKindV>((p.0@, p.1 as int)),
                Err(e) => m == Err::<(Seq<char>, int), _>(e@),
            }
        }),
{
    if i < toks.len() {
        proof {
            assert(toks_view(toks)[i as int] == toks@[i as int]@);
        }
        match &toks[i] {
            PdlTok::Str(s) => Ok((chars_to_string(s), i + 1)),
            _ => Err(ErrorKind::Syntax { offset: i }),
        }
    } else {
        Err(ErrorKind::Syntax { offset: i })
    }
}

/// Exec mirror of [`parse_bool_tok`].
fn parse_bool_exec(toks: &Vec<PdlTok>, i: usize) -> (r: Result<(bool, usize), ErrorKind>)
    ensures
        ({
            let m = parse_bool_tok(toks_view(toks), i as int);
            match r {
                Ok(p) => p.1 <= toks@.len() && m == Ok::<_, ErrorKindV>((p.0, p.1 as int)),
                Err(e) => m == Err::<(bool, int), _>(e@),
            }
        }),
{
    if i < toks.len() {
        proof {
            assert(toks_view(toks)[i as int] == toks@[i as int]@);
        }
        match &toks[i] {
            PdlTok::Ident(w) => {
                if chars_eq_str(w, "True") || chars_eq_str(w, "true") {
                    Ok((true, i + 1))
                } else if chars_eq_str(w, "False") || chars_eq_str(w, "false") {
                    Ok((false, i + 1))
                } else {
                    Err(ErrorKind::Syntax { offset: i })
                }
            },
            _ => Err(ErrorKind::Syntax { offset: i }),
        }
    } else {
        Err(ErrorKind::Syntax { offset: i })
    }
}

/// Exec mirror of [`parse_matcher_tok`].
fn parse_matcher_exec(toks: &Vec<PdlTok>, i: usize) -> (r: Result<(ArgMatcher, usize), ErrorKind>)
    ensures
        ({
            let m = parse_matcher_tok(toks_view(toks), i as int);
            match r {
                Ok(p) => p.1 <= toks@.len() && m == Ok::<_, ErrorKindV>((p.0, p.1 as int)),
                Err(e) => m == Err::<(ArgMatcher, int), _>(e@),
            }
        }),
{
    if i < toks.len() {
        proof {
            assert(toks_view(toks)[i as int] == toks@[i as int]@);
        }
        match &toks[i] {
            PdlTok::Ident(w) => {
                let m = if chars_eq_str(w, "ARG_OPAQUE_VALUE") {
                    Some(ArgMatcher::OpaqueNonFile)
                } else if chars_eq_str(w, "ARG_RFILE") {
                    Some(ArgMatcher::ReadableFile)
                } else if chars_eq_str(w, "ARG_WFILE") {
                    Some(ArgMatcher::WriteableFile)
                } else if chars_eq_str(w, "ARG_RFILES") {
                    Some(ArgMatcher::ReadableFiles)
                } else if chars_eq_str(w, "ARG_RFILES_OR_CWD") {
                    Some(ArgMatcher::ReadableFilesOrCwd)
                } else if chars_eq_str(w, "ARG_POS_INT") {
                    Some(ArgMatcher::PositiveInteger)
                } else if chars_eq_str(w, "ARG_SED_COMMAND") {
                    Some(ArgMatcher::SedCommand)
                } else if chars_eq_str(w, "ARG_UNVERIFIED_VARARGS") {
                    Some(ArgMatcher::UnverifiedVarargs)
                } else {
                    None
                };
                match m {
                    Some(mm) => Ok((mm, i + 1)),
                    None => Err(ErrorKind::BadArgument { name: chars_to_string(w) }),
                }
            },
            _ => Err(ErrorKind::Syntax { offset: i }),
        }
    } else {
        Err(ErrorKind::Syntax { offset: i })
    }
}

/// Exec mirror of [`parse_string_items`].
fn parse_string_items_exec(toks: &Vec<PdlTok>, i: usize, acc: Vec<String>, fuel: usize) -> (r:
    Result<(Vec<String>, usize), ErrorKind>)
    ensures
        ({
            let m = parse_string_items(toks_view(toks), i as int, acc.deep_view(), fuel as nat);
            match r {
                Ok(p) => p.1 <= toks@.len() && m == Ok::<_, ErrorKindV>(
                    (p.0.deep_view(), p.1 as int),
                ),
                Err(e) => m == Err::<(Seq<Seq<char>>, int), _>(e@),
            }
        }),
    decreases fuel,
{
    if i >= toks.len() || fuel == 0 {
        return Err(ErrorKind::Syntax { offset: i });
    }
    if is_rbracket_at(toks, i) {
        return Ok((acc, i + 1));
    }
    match parse_string_exec(toks, i) {
        Ok(p) => {
            let (s, j) = p;
            if is_comma_at(toks, j) {
                let mut acc2 = acc;
                acc2.push(s);
                proof {
                    assert(acc2.deep_view() =~= acc.deep_view().push(
                        acc2@[acc2@.len() - 1].deep_view(),
                    ));
                }
                parse_string_items_exec(toks, j + 1, acc2, fuel - 1)
            } else if is_rbracket_at(toks, j) {
                let mut acc2 = acc;
                acc2.push(s);
                proof {
                    assert(acc2.deep_view() =~= acc.deep_view().push(
                        acc2@[acc2@.len() - 1].deep_view(),
                    ));
                }
                Ok((acc2, j + 1))
            } else {
                Err(ErrorKind::Syntax { offset: j })
            }
        },
        Err(e) => Err(e),
    }
}

/// Exec mirror of [`parse_string_list`].
fn parse_string_list_exec(toks: &Vec<PdlTok>, i: usize) -> (r: Result<
    (Vec<String>, usize),
    ErrorKind,
>)
    ensures
        ({
            let m = parse_string_list(toks_view(toks), i as int);
            match r {
                Ok(p) => p.1 <= toks@.len() && m == Ok::<_, ErrorKindV>(
                    (p.0.deep_view(), p.1 as int),
                ),
                Err(e) => m == Err::<(Seq<Seq<char>>, int), _>(e@),
            }
        }),
{
    let n = toks.len();
    if is_lbracket_at(toks, i) {
        let acc: Vec<String> = Vec::new();
        proof {
            assert(acc.deep_view() =~= Seq::<Seq<char>>::empty());
        }
        parse_string_items_exec(toks, i + 1, acc, n)
    } else {
        Err(ErrorKind::Syntax { offset: i })
    }
}

/// Exec mirror of [`parse_matcher_items`].
fn parse_matcher_items_exec(toks: &Vec<PdlTok>, i: usize, acc: Vec<ArgMatcher>, fuel: usize) -> (r:
    Result<(Vec<ArgMatcher>, usize), ErrorKind>)
    ensures
        ({
            let m = parse_matcher_items(toks_view(toks), i as int, acc@, fuel as nat);
            match r {
                Ok(p) => p.1 <= toks@.len() && m == Ok::<_, ErrorKindV>((p.0@, p.1 as int)),
                Err(e) => m == Err::<(Seq<ArgMatcher>, int), _>(e@),
            }
        }),
    decreases fuel,
{
    if i >= toks.len() || fuel == 0 {
        return Err(ErrorKind::Syntax { offset: i });
    }
    if is_rbracket_at(toks, i) {
        return Ok((acc, i + 1));
    }
    match parse_matcher_exec(toks, i) {
        Ok(p) => {
            let (mm, j) = p;
            if is_comma_at(toks, j) {
                let mut acc2 = acc;
                acc2.push(mm);
                parse_matcher_items_exec(toks, j + 1, acc2, fuel - 1)
            } else if is_rbracket_at(toks, j) {
                let mut acc2 = acc;
                acc2.push(mm);
                Ok((acc2, j + 1))
            } else {
                Err(ErrorKind::Syntax { offset: j })
            }
        },
        Err(e) => Err(e),
    }
}

/// Exec mirror of [`parse_matcher_list`].
fn parse_matcher_list_exec(toks: &Vec<PdlTok>, i: usize) -> (r: Result<
    (Vec<ArgMatcher>, usize),
    ErrorKind,
>)
    ensures
        ({
            let m = parse_matcher_list(toks_view(toks), i as int);
            match r {
                Ok(p) => p.1 <= toks@.len() && m == Ok::<_, ErrorKindV>((p.0@, p.1 as int)),
                Err(e) => m == Err::<(Seq<ArgMatcher>, int), _>(e@),
            }
        }),
{
    let n = toks.len();
    if is_lbracket_at(toks, i) {
        parse_matcher_items_exec(toks, i + 1, Vec::new(), n)
    } else {
        Err(ErrorKind::Syntax { offset: i })
    }
}

/// Exec mirror of [`parse_opt`].
fn parse_opt_exec(toks: &Vec<PdlTok>, i: usize) -> (r: Result<(Opt, usize), ErrorKind>)
    ensures
        ({
            let m = parse_opt(toks_view(toks), i as int);
            match r {
                Ok(p) => p.1 <= toks@.len() && m == Ok::<_, ErrorKindV>((p.0@, p.1 as int)),
                Err(e) => m == Err::<(OptV, int), _>(e@),
            }
        }),
{
    if i >= toks.len() {
        return Err(ErrorKind::Syntax { offset: i });
    }
    proof {
        assert(toks_view(toks)[i as int] == toks@[i as int]@);
    }
    let is_flag: bool;
    match &toks[i] {
        PdlTok::Ident(w) => {
            if !is_lparen_at(toks, i + 1) {
                return Err(ErrorKind::Syntax { offset: i + 1 });
            }
            if chars_eq_str(w, "flag") {
                is_flag = true;
            } else if chars_eq_str(w, "opt") {
                is_flag = false;
            } else {
                return Err(ErrorKind::BadArgument { name: chars_to_string(w) });
            }
        },
        _ => {
            return Err(ErrorKind::Syntax { offset: i });
        },
    }
    if is_flag {
        match parse_string_exec(toks, i + 2) {
            Ok(p) => {
                let (name, j) = p;
                if is_rparen_at(toks, j) {
                    Ok((Opt { name, kind: OptKind::Flag, required: false }, j + 1))
                } else {
                    Err(ErrorKind::Syntax { offset: j })
                }
            },
            Err(e) => Err(e),
        }
    } else {
        match parse_string_exec(toks, i + 2) {
            Ok(p) => {
                let (name, j) = p;
                if !is_comma_at(toks, j) {
                    return Err(ErrorKind::Syntax { offset: j });
                }
                match parse_matcher_exec(toks, j + 1) {
                    Ok(q) => {
                        let (mm, j2) = q;
                        if is_rparen_at(toks, j2) {
                            return Ok(
                                (Opt { name, kind: OptKind::Value(mm), required: false }, j2 + 1),
                            );
                        }
                        let n = toks.len();
                        if n - j2 > 2 && is_comma_at(toks, j2) && is_required_ident_at(
                            toks,
                            j2 + 1,
                        ) && is_eq_at(toks, j2 + 2) {
                            match parse_bool_exec(toks, j2 + 3) {
                                Ok(b) => {
                                    let (bv, j3) = b;
                                    if is_rparen_at(toks, j3) {
                                        Ok(
                                            (
                                                Opt {
                                                    name,
                                                    kind: OptKind::Value(mm),
                                                    required: bv,
                                                },
                                                j3 + 1,
                                            ),
                                        )
                                    } else {
                                        Err(ErrorKind::Syntax { offset: j3 })
                                    }
                                },
                                Err(e) => Err(e),
                            }
                        } else {
                            Err(ErrorKind::Syntax { offset: j2 })
                        }
                    },
                    Err(e) => Err(e),
                }
            },
            Err(e) => Err(e),
        }
    }
}

/// The token at `j` exists and is the identifier `required`.
fn is_required_ident_at(toks: &Vec<PdlTok>, j: usize) -> (r: bool)
    ensures
        r == (j < toks@.len() && (toks_view(toks)[j as int] matches PdlTokV::Ident(rw) && rw
            == "required"@)),
{
    if j < toks.len() {
        proof {
            assert(toks_view(toks)[j as int] == toks@[j as int]@);
        }
        match &toks[j] {
            PdlTok::Ident(w) => chars_eq_str(w, "required"),
            _ => false,
        }
    } else {
        false
    }
}

/// Exec mirror of [`parse_opt_items`].
fn parse_opt_items_exec(toks: &Vec<PdlTok>, i: usize, acc: Vec<Opt>, fuel: usize) -> (r: Result<
    (Vec<Opt>, usize),
    ErrorKind,
>)
    ensures
        ({
            let m = parse_opt_items(
                toks_view(toks),
                i as int,
                acc@.map_values(|o: Opt| o@),
                fuel as nat,
            );
            match r {
                Ok(p) => p.1 <= toks@.len() && m == Ok::<_, ErrorKindV>(
                    (p.0@.map_values(|o: Opt| o@), p.1 as int),
                ),
                Err(e) => m == Err::<(Seq<OptV>, int), _>(e@),
            }
        }),
    decreases fuel,
{
    if i >= toks.len() || fuel == 0 {
        return Err(ErrorKind::Syntax { offset: i });
    }
    if is_rbracket_at(toks, i) {
        return Ok((acc, i + 1));
    }
    match parse_opt_exec(toks, i) {
        Ok(p) => {
            let (o, j) = p;
            if is_comma_at(toks, j) {
                let mut acc2 = acc;
                acc2.push(o);
                proof {
                    assert(acc2@.map_values(|x: Opt| x@) =~= acc@.map_values(|x: Opt| x@).push(
                        acc2@[acc2@.len() - 1]@,
                    ));
                }
                parse_opt_items_exec(toks, j + 1, acc2, fuel - 1)
            } else if is_rbracket_at(toks, j) {
                let mut acc2 = acc;
                acc2.push(o);
                proof {
                    assert(acc2@.map_values(|x: Opt| x@) =~= acc@.map_values(|x: Opt| x@).push(
                        acc2@[acc2@.len() - 1]@,
                    ));
                }
                Ok((acc2, j + 1))
            } else {
                Err(ErrorKind::Syntax { offset: j })
            }
        },
        Err(e) => Err(e),
    }
}

/// Exec mirror of [`parse_opt_list`].
fn parse_opt_list_exec(toks: &Vec<PdlTok>, i: usize) -> (r: Result<(Vec<Opt>, usize), ErrorKind>)
    ensures
        ({
            let m = parse_opt_list(toks_view(toks), i as int);
            match r {
                Ok(p) => p.1 <= toks@.len() && m == Ok::<_, ErrorKindV>(
                    (p.0@.map_values(|o: Opt| o@), p.1 as int),
                ),
                Err(e) => m == Err::<(Seq<OptV>, int), _>(e@),
            }
        }),
{
    let n = toks.len();
    if is_lbracket_at(toks, i) {
        let acc: Vec<Opt> = Vec::new();
        proof {
            assert(acc@.map_values(|o: Opt| o@) =~= Seq::<OptV>::empty());
        }
        parse_opt_items_exec(toks, i + 1, acc, n)
    } else {
        Err(ErrorKind::Syntax { offset: i })
    }
}

/// Exec mirror of [`parse_list_items`].
fn parse_list_items_exec(toks: &Vec<PdlTok>, i: usize, acc: Vec<Vec<String>>, fuel: usize) -> (r:
    Result<(Vec<Vec<String>>, usize), ErrorKind>)
    ensures
        ({
            let m = parse_list_items(toks_view(toks), i as int, acc.deep_view(), fuel as nat);
            match r {
                Ok(p) => p.1 <= toks@.len() && m == Ok::<_, ErrorKindV>(
                    (p.0.deep_view(), p.1 as int),
                ),
                Err(e) => m == Err::<(Seq<Seq<Seq<char>>>, int), _>(e@),
            }
        }),
    decreases fuel,
{
    if i >= toks.len() || fuel == 0 {
        return Err(ErrorKind::Syntax { offset: i });
    }
    if is_rbracket_at(toks, i) {
        return Ok((acc, i + 1));
    }
    match parse_string_list_exec(toks, i) {
        Ok(p) => {
            let (l, j) = p;
            if is_comma_at(toks, j) {
                let mut acc2 = acc;
                acc2.push(l);
                proof {
                    assert(acc2.deep_view() =~= acc.deep_view().push(
                        acc2@[acc2@.len() - 1].deep_view(),
                    ));
                }
                parse_list_items_exec(toks, j + 1, acc2, fuel - 1)
            } else if is_rbracket_at(toks, j) {
                let mut acc2 = acc;
                acc2.push(l);
                proof {
                    assert(acc2.deep_view() =~= acc.deep_view().push(
                        acc2@[acc2@.len() - 1].deep_view(),
                    ));
                }
                Ok((acc2, j + 1))
            } else {
                Err(ErrorKind::Syntax { offset: j })
            }
        },
        Err(e) => Err(e),
    }
}

/// Exec mirror of [`parse_list_of_lists`].
fn parse_list_of_lists_exec(toks: &Vec<PdlTok>, i: usize) -> (r: Result<
    (Vec<Vec<String>>, usize),
    ErrorKind,
>)
    ensures
        ({
            let m = parse_list_of_lists(toks_view(toks), i as int);
            match r {
                Ok(p) => p.1 <= toks@.len() && m == Ok::<_, ErrorKindV>(
                    (p.0.deep_view(), p.1 as int),
                ),
                Err(e) => m == Err::<(Seq<Seq<Seq<char>>>, int), _>(e@),
            }
        }),
{
    let n = toks.len();
    if is_lbracket_at(toks, i) {
        let acc: Vec<Vec<String>> = Vec::new();
        proof {
            assert(acc.deep_view() =~= Seq::<Seq<Seq<char>>>::empty());
        }
        parse_list_items_exec(toks, i + 1, acc, n)
    } else {
        Err(ErrorKind::Syntax { offset: i })
    }
}

/// Exec mirror of [`parse_named_value`].
fn parse_named_value_exec(toks: &Vec<PdlTok>, i: usize, name: &Vec<char>, d: Draft) -> (r: Result<
    (Draft, usize),
    ErrorKind,
>)
    ensures
        ({
            let m = parse_named_value(toks_view(toks), i as int, name@, d@);
            match r {
                Ok(p) => p.1 <= toks@.len() && m == Ok::<_, ErrorKindV>((p.0@, p.1 as int)),
                Err(e) => m == Err::<(DraftV, int), _>(e@),
            }
        }),
{
    if chars_eq_str(name, "program") {
        match parse_string_exec(toks, i) {
            Ok(p) => Ok((Draft { program: Some(p.0), ..d }, p.1)),
            Err(e) => Err(e),
        }
    } else if chars_eq_str(name, "system_path") {
        match parse_string_list_exec(toks, i) {
            Ok(p) => Ok((Draft { allowed_install_dirs: p.0, ..d }, p.1)),
            Err(e) => Err(e),
        }
    } else if chars_eq_str(name, "option_bundling") {
        match parse_bool_exec(toks, i) {
            Ok(p) => Ok((Draft { option_bundling: p.0, ..d }, p.1)),
            Err(e) => Err(e),
        }
    } else if chars_eq_str(name, "combined_format") {
        match parse_bool_exec(toks, i) {
            Ok(p) => Ok((Draft { combined_format: p.0, ..d }, p.1)),
            Err(e) => Err(e),
        }
    } else if chars_eq_str(name, "options") {
        match parse_opt_list_exec(toks, i) {
            Ok(p) => Ok((Draft { options: p.0, ..d }, p.1)),
            Err(e) => Err(e),
        }
    } else if chars_eq_str(name, "args") {
        match parse_matcher_list_exec(toks, i) {
            Ok(p) => Ok((Draft { positional_args: p.0, ..d }, p.1)),
            Err(e) => Err(e),
        }
    } else if chars_eq_str(name, "forbidden") {
        match parse_string_exec(toks, i) {
            Ok(p) => Ok((Draft { forbidden: Some(p.0), ..d }, p.1)),
            Err(e) => Err(e),
        }
    } else if chars_eq_str(name, "prompt") {
        match parse_string_exec(toks, i) {
            Ok(p) => Ok((Draft { prompt: Some(p.0), ..d }, p.1)),
            Err(e) => Err(e),
        }
    } else if chars_eq_str(name, "should_match") {
        match parse_list_of_lists_exec(toks, i) {
            Ok(p) => Ok((Draft { should_match: p.0, ..d }, p.1)),
            Err(e) => Err(e),
        }
    } else if chars_eq_str(name, "should_not_match") {
        match parse_list_of_lists_exec(toks, i) {
            Ok(p) => Ok((Draft { should_not_match: p.0, ..d }, p.1)),
            Err(e) => Err(e),
        }
    } else {
        Err(ErrorKind::BadArgument { name: chars_to_string(name) })
    }
}

/// Exec mirror of [`parse_define_args`].
fn parse_define_args_exec(toks: &Vec<PdlTok>, i: usize, d: Draft, first: bool, fuel: usize) -> (r:
    Result<(Draft, usize), ErrorKind>)
    ensures
        ({
            let m = parse_define_args(toks_view(toks), i as int, d@, first, fuel as nat);
            match r {
                Ok(p) => p.1 <= toks@.len() && m == Ok::<_, ErrorKindV>((p.0@, p.1 as int)),
                Err(e) => m == Err::<(DraftV, int), _>(e@),
            }
        }),
    decreases fuel,
{
    if i >= toks.len() || fuel == 0 {
        return Err(ErrorKind::Syntax { offset: i });
    }
    if is_rparen_at(toks, i) {
        return Ok((d, i + 1));
    }
    proof {
        assert(toks_view(toks)[i as int] == toks@[i as int]@);
    }
    let leading_str = first && matches!(&toks[i], PdlTok::Str(_));
    if leading_str {
        let s = match &toks[i] {
            PdlTok::Str(s) => chars_to_string(s),
            _ => String::new(),
        };
        let d2 = Draft { program: Some(s), ..d };
        if is_comma_at(toks, i + 1) {
            parse_define_args_exec(toks, i + 2, d2, false, fuel - 1)
        } else if is_rparen_at(toks, i + 1) {
            Ok((d2, i + 2))
        } else {
            Err(ErrorKind::Syntax { offset: i + 1 })
        }
    } else {
        match &toks[i] {
            PdlTok::Ident(name) => {
                if is_eq_at(toks, i + 1) {
                    match parse_named_value_exec(toks, i + 2, name, d) {
                        Ok(p) => {
                            let (d2, j) = p;
                            if is_comma_at(toks, j) {
                                parse_define_args_exec(toks, j + 1, d2, false, fuel - 1)
                            } else if is_rparen_at(toks, j) {
                                Ok((d2, j + 1))
                            } else {
                                Err(ErrorKind::Syntax { offset: j })
                            }
                        },
                        Err(e) => Err(e),
                    }
                } else {
                    Err(ErrorKind::Syntax { offset: i + 1 })
                }
            },
            _ => Err(ErrorKind::Syntax { offset: i }),
        }
    }
}

/// Exec mirror of [`find_dup_from`]: the first option whose name already
/// occurred, or none.
fn find_dup_exec(opts: &Vec<Opt>) -> (r: Option<usize>)
    ensures
        ({
            let ov = opts@.map_values(|o: Opt| o@);
            match r {
                Some(k) => k < opts@.len() && find_dup_from(ov, 0) == k as int,
                None => find_dup_from(ov, 0) == -1,
            }
        }),
{
    let ghost ov = opts@.map_values(|o: Opt| o@);
    let mut i: usize = 0;
    while i < opts.len()
        invariant
            ov == opts@.map_values(|o: Opt| o@),
            i <= opts@.len(),
            find_dup_from(ov, 0) == find_dup_from(ov, i as int),
        decreases opts@.len() - i,
    {
        let mut j: usize = 0;
        let mut dup = false;
        while j < i
            invariant
                ov == opts@.map_values(|o: Opt| o@),
                i < opts@.len(),
                j <= i,
                dup ==> exists|q: int| 0 <= q < i && (#[trigger] ov[q]).name == ov[i as int].name,
                !dup ==> forall|q: int| 0 <= q < j ==> (#[trigger] ov[q]).name != ov[i as int].name,
            decreases i - j,
        {
            proof {
                assert(ov[j as int] == opts@[j as int]@);
                assert(ov[i as int] == opts@[i as int]@);
            }
            if !dup && opts[j].name == opts[i].name {
                dup = true;
            }
            j = j + 1;
        }
        if dup {
            return Some(i);
        }
        i = i + 1;
    }
    None
}

/// Exec test for [`variadic_ok`].
fn check_variadic_ok(pargs: &Vec<ArgMatcher>) -> (r: bool)
    ensures
        r == variadic_ok(pargs@),
{
    if pargs.len() == 0 {
        return true;
    }
    let mut j: usize = 0;
    while j < pargs.len() - 1
        invariant
            pargs@.len() >= 1,
            j <= pargs@.len() - 1,
            forall|q: int| 0 <= q < j ==> !(#[trigger] pargs@[q]).is_variadic(),
        decreases pargs@.len() - j,
    {
        let variadic = matches!(
            pargs[j],
            ArgMatcher::ReadableFiles | ArgMatcher::ReadableFilesOrCwd
                | ArgMatcher::UnverifiedVarargs
        );
        if variadic {
            return false;
        }
        j = j + 1;
    }
    true
}

/// Exec mirror of [`finalize_draft`].
fn finalize_draft_exec(d: Draft) -> (r: Result<ProgramSpec, ErrorKind>)
    ensures
        ({
            let m = finalize_draft(d@);
            match r {
                Ok(s) => m == Ok::<_, ErrorKindV>(s@),
                Err(e) => m == Err::<ProgramSpecV, _>(e@),
            }
        }),
{
    let Draft {
        program,
        allowed_install_dirs,
        option_bundling,
        combined_format,
        options,
        positional_args,
        forbidden,
        prompt,
        should_match,
        should_not_match,
    } = d;
    let program = match program {
        Some(p) => p,
        None => {
            return Err(ErrorKind::BadArgument { name: "program".to_owned() });
        },
    };
    match find_dup_exec(&options) {
        Some(k) => {
            proof {
                assert(options@.map_values(|o: Opt| o@)[k as int] == options@[k as int]@);
            }
            return Err(ErrorKind::DuplicateOption { option: options[k].name.clone() });
        },
        None => {},
    }
    if !check_variadic_ok(&positional_args) {
        return Err(ErrorKind::VariadicNotLast { program });
    }
    let decision = match forbidden {
        Some(r) => Decision::Forbidden(r),
        None => match prompt {
            Some(r) => Decision::Prompt(r),
            None => Decision::Allow,
        },
    };
    Ok(
        ProgramSpec {
            program,
            allowed_install_dirs,
            option_bundling,
            combined_format,
            options,
            positional_args,
            decision,
            should_match,
            should_not_match,
        },
    )
}

/// Exec mirror of [`parse_stmt`].
fn parse_stmt_exec(toks: &Vec<PdlTok>, i: usize) -> (r: Result<(Stmt, usize), ErrorKind>)
    ensures
        ({
            let m = parse_stmt(toks_view(toks), i as int);
            match r {
                Ok(p) => p.1 <= toks@.len() && m == Ok::<_, ErrorKindV>((p.0@, p.1 as int)),
                Err(e) => m == Err::<(StmtV, int), _>(e@),
            }
        }),
{
    if i >= toks.len() {
        return Err(ErrorKind::Syntax { offset: i });
    }
    proof {
        assert(toks_view(toks)[i as int] == toks@[i as int]@);
    }
    match &toks[i] {
        PdlTok::Ident(name) => {
            if !is_lparen_at(toks, i + 1) {
                return Err(ErrorKind::Syntax { offset: i + 1 });
            }
            if chars_eq_str(name, "define_program") {
                let d = Draft {
                    program: None,
                    allowed_install_dirs: Vec::new(),
                    option_bundling: false,
                    combined_format: false,
                    options: Vec::new(),
                    positional_args: Vec::new(),
                    forbidden: None,
                    prompt: None,
                    should_match: Vec::new(),
                    should_not_match: Vec::new(),
                };
                proof {
                    assert(d@.allowed_install_dirs =~= empty_draft().allowed_install_dirs);
                    assert(d@.options =~= empty_draft().options);
                    assert(d@.should_match =~= empty_draft().should_match);
                    assert(d@.should_not_match =~= empty_draft().should_not_match);
                    assert(d@ == empty_draft());
                }
                match parse_define_args_exec(toks, i + 2, d, true, toks.len()) {
                    Ok(p) => {
                        let (d2, j) = p;
                        match finalize_draft_exec(d2) {
                            Ok(s) => Ok((Stmt::Define(s), j)),
                            Err(e) => Err(e),
                        }
                    },
                    Err(e) => Err(e),
                }
            } else if chars_eq_str(name, "forbid_substrings") {
                match parse_string_list_exec(toks, i + 2) {
                    Ok(p) => {
                        let (ss, j) = p;
                        if is_rparen_at(toks, j) {
                            Ok((Stmt::ForbidSubstrings(ss), j + 1))
                        } else {
                            Err(ErrorKind::Syntax { offset: j })
                        }
                    },
                    Err(e) => Err(e),
                }
            } else if chars_eq_str(name, "forbid_program_regex") {
                match parse_string_exec(toks, i + 2) {
                    Ok(p) => {
                        let (pattern, j) = p;
                        if !is_comma_at(toks, j) {
                            return Err(ErrorKind::Syntax { offset: j });
                        }
                        match parse_string_exec(toks, j + 1) {
                            Ok(q) => {
                                let (reason, j2) = q;
                                if is_rparen_at(toks, j2) {
                                    Ok(
                                        (
                                            Stmt::ForbidProgramRegex(RegexRule { pattern, reason }),
                                            j2 + 1,
                                        ),
                                    )
                                } else {
                                    Err(ErrorKind::Syntax { offset: j2 })
                                }
                            },
                            Err(e) => Err(e),
                        }
                    },
                    Err(e) => Err(e),
                }
            } else {
                Err(ErrorKind::UnknownStatement { name: chars_to_string(name) })
            }
        },
        _ => Err(ErrorKind::Syntax { offset: i }),
    }
}

/// Exec mirror of [`parse_stmts`].
fn parse_stmts_exec(toks: &Vec<PdlTok>, i: usize, fuel: usize) -> (r: Result<Vec<Stmt>, ErrorKind>)
    ensures
        ({
            let m = parse_stmts(toks_view(toks), i as int, fuel as nat);
            match r {
                Ok(ss) => m == Ok::<_, ErrorKindV>(ss@.map_values(|s: Stmt| s@)),
                Err(e) => m == Err::<Seq<StmtV>, _>(e@),
            }
        }),
    decreases fuel,
{
    if i >= toks.len() {
        let out: Vec<Stmt> = Vec::new();
        proof {
            assert(out@.map_values(|s: Stmt| s@) =~= Seq::<StmtV>::empty());
        }
        return Ok(out);
    }
    if fuel == 0 {
        return Err(ErrorKind::Syntax { offset: i });
    }
    match parse_stmt_exec(toks, i) {
        Ok(p) => {
            let (st, j) = p;
            match parse_stmts_exec(toks, j, fuel - 1) {
                Ok(rest) => {
                    let mut rest2 = rest;
                    rest2.insert(0, st);
                    proof {
                        let ghost sv = st@;
                        assert(rest2@.map_values(|s: Stmt| s@) =~= seq![sv] + rest2@.skip(
                            1,
                        ).map_values(|s: Stmt| s@));
                        assert(rest2@.skip(1) =~= rest@);
                    }
                    Ok(rest2)
                },
                Err(e) => Err(e),
            }
        },
        Err(e) => Err(e),
    }
}

/// Parses one policy source into its semantic statements.
pub fn parse_source(src: &str) -> (r: Result<Vec<Stmt>, ErrorKind>)
    ensures
        ({
            let m = parse_model(src@);
            match r {
                Ok(ss) => m == Ok::<_, ErrorKindV>(ss@.map_values(|s: Stmt| s@)),
                Err(e) => m == Err::<Seq<StmtV>, _>(e@),
            }
        }),
{
    let chars = crate::text::str_to_chars(src);
    let n = chars.len();
    match lex_pdl_exec(&chars, 0, n) {
        Ok(toks) => {
            let nt = toks.len();
            proof {
                assert(toks_view(&toks).len() == toks@.len());
            }
            parse_stmts_exec(&toks, 0, nt)
        },
        Err(e) => Err(e),
    }
}

} // verus!
