//! The policy description language's lexer, and the compile-time error
//! taxonomy. A policy source is a sequence of function-call statements over
//! string, boolean and list literals and bare identifiers; the lexer turns
//! its text into punctuation, identifier and string tokens.

use vstd::prelude::*;

verus! {

/// Why a policy source failed to compile. A failed compile aborts the whole
/// load: a policy that fails to compile is never partially trusted.
#[derive(Debug)]
pub enum ErrorKind {
    /// Malformed text or token structure; the offset is a character
    /// position for lexing errors and a token position for grammar errors.
    Syntax { offset: usize },
    /// A top-level statement that is not part of the language.
    UnknownStatement { name: String },
    /// An argument name, value or identifier a statement does not accept.
    BadArgument { name: String },
    /// Two options of one program spec share a name.
    DuplicateOption { option: String },
    /// A variadic matcher stands before the last positional slot.
    VariadicNotLast { program: String },
    /// A forbidden-program pattern that does not compile as a regular
    /// expression.
    InvalidRegex { pattern: String },
    /// A compiled-in self-test failed: a `should_match` entry did not match
    /// its spec, or a `should_not_match` entry did.
    SelfTestFailed { program: String, expected_match: bool },
}

/// Mathematical model of an [`ErrorKind`].
pub enum ErrorKindV {
    Syntax { offset: int },
    UnknownStatement { name: Seq<char> },
    BadArgument { name: Seq<char> },
    DuplicateOption { option: Seq<char> },
    VariadicNotLast { program: Seq<char> },
    InvalidRegex { pattern: Seq<char> },
    SelfTestFailed { program: Seq<char>, expected_match: bool },
}

impl View for ErrorKind {
    type V = ErrorKindV;

    open spec fn view(&self) -> ErrorKindV {
        match self {
            ErrorKind::Syntax { offset } => ErrorKindV::Syntax { offset: *offset as int },
            ErrorKind::UnknownStatement { name } => ErrorKindV::UnknownStatement { name: name@ },
            ErrorKind::BadArgument { name } => ErrorKindV::BadArgument { name: name@ },
            ErrorKind::DuplicateOption { option } => ErrorKindV::DuplicateOption {
                option: option@,
            },
            ErrorKind::VariadicNotLast { program } => ErrorKindV::VariadicNotLast {
                program: program@,
            },
            ErrorKind::InvalidRegex { pattern } => ErrorKindV::InvalidRegex { pattern: pattern@ },
            ErrorKind::SelfTestFailed { program, expected_match } => ErrorKindV::SelfTestFailed {
                program: program@,
                expected_match: *expected_match,
            },
        }
    }
}

/// A compile error, carrying the identifier of the source it arose in.
#[derive(Debug)]
pub struct CompileError {
    pub source: String,
    pub kind: ErrorKind,
}

/// Mathematical model of a [`CompileError`].
pub struct CompileErrorV {
    pub source: Seq<char>,
    pub kind: ErrorKindV,
}

impl View for CompileError {
    type V = CompileErrorV;

    open spec fn view(&self) -> CompileErrorV {
        CompileErrorV { source: self.source@, kind: self.kind@ }
    }
}

/// One lexed token of a policy source.
#[derive(Debug)]
pub enum PdlTok {
    Ident(Vec<char>),
    Str(Vec<char>),
    LParen,
    RParen,
    LBracket,
    RBracket,
    Comma,
    Eq,
}

/// Mathematical model of a [`PdlTok`].
pub enum PdlTokV {
    Ident(Seq<char>),
    Str(Seq<char>),
    LParen,
    RParen,
    LBracket,
    RBracket,
    Comma,
    Eq,
}

impl View for PdlTok {
    type V = PdlTokV;

    open spec fn view(&self) -> PdlTokV {
        match self {
            PdlTok::Ident(w) => PdlTokV::Ident(w@),
            PdlTok::Str(w) => PdlTokV::Str(w@),
            PdlTok::LParen => PdlTokV::LParen,
            PdlTok::RParen => PdlTokV::RParen,
            PdlTok::LBracket => PdlTokV::LBracket,
            PdlTok::RBracket => PdlTokV::RBracket,
            PdlTok::Comma => PdlTokV::Comma,
            PdlTok::Eq => PdlTokV::Eq,
        }
    }
}

/// Whitespace between tokens.
pub open spec fn is_pdl_ws(c: char) -> bool {
    c == ' ' || c == '\t' || c == '\r' || c == '\n'
}

/// A character that may open an identifier.
pub open spec fn is_ident_start(c: char) -> bool {
    ('a' <= c && c <= 'z') || ('A' <= c && c <= 'Z') || c == '_'
}

/// A character that may continue an identifier.
pub open spec fn is_ident_char(c: char) -> bool {
    is_ident_start(c) || ('0' <= c && c <= '9')
}

/// Scans an identifier from position `i`.
pub open spec fn scan_ident(s: Seq<char>, i: int, acc: Seq<char>) -> (Seq<char>, int)
    decreases s.len() - i,
{
    if i < 0 || i >= s.len() {
        (acc, if i < 0 { 0 } else { i })
    } else if is_ident_char(s[i]) {
        scan_ident(s, i + 1, acc.push(s[i]))
    } else {
        (acc, i)
    }
}

/// What a backslash escape inside a string literal stands for.
pub open spec fn escape_char(c: char) -> Option<char> {
    if c == '\\' {
        Some('\\')
    } else if c == '"' {
        Some('"')
    } else if c == '\'' {
        Some('\'')
    } else if c == 'n' {
        Some('\n')
    } else if c == 't' {
        Some('\t')
    } else {
        None
    }
}

/// Scans a string literal opened with `q`, from the position after the
/// opening quote; an unterminated literal or an unknown escape is an error.
pub open spec fn scan_string(s: Seq<char>, i: int, acc: Seq<char>, q: char) -> Result<
    (Seq<char>, int),
    ErrorKindV,
>
    decreases s.len() - i,
{
    if i < 0 || i >= s.len() {
        Err(ErrorKindV::Syntax { offset: if i < 0 { 0 } else { i } })
    } else {
        let c = s[i];
        if c == q {
            Ok((acc, i + 1))
        } else if c == '\\' {
            if i + 1 >= s.len() {
                Err(ErrorKindV::Syntax { offset: i })
            } else {
                match escape_char(s[i + 1]) {
                    Some(e) => scan_string(s, i + 2, acc.push(e), q),
                    None => Err(ErrorKindV::Syntax { offset: i }),
                }
            }
        } else {
            scan_string(s, i + 1, acc.push(c), q)
        }
    }
}

/// The position of the next newline at or after `i`, or the end.
pub open spec fn find_line_end(s: Seq<char>, i: int) -> int
    decreases s.len() - i,
{
    if i < 0 || i >= s.len() {
        s.len() as int
    } else if s[i] == '\n' {
        i
    } else {
        find_line_end(s, i + 1)
    }
}

/// Puts one token in front of a lexing result.
pub open spec fn cons_ptok(t: PdlTokV, rest: Result<Seq<PdlTokV>, ErrorKindV>) -> Result<
    Seq<PdlTokV>,
    ErrorKindV,
> {
    match rest {
        Ok(ts) => Ok(seq![t] + ts),
        Err(e) => Err(e),
    }
}

/// Lexes a policy source from position `i`. `fuel` bounds the recursion;
/// every step consumes at least one character and the end of the source is
/// reached before fuel runs out, so the callers hand in the source's length.
pub open spec fn lex_pdl(s: Seq<char>, i: int, fuel: nat) -> Result<Seq<PdlTokV>, ErrorKindV>
    decreases fuel,
{
    if i < 0 {
        Err(ErrorKindV::Syntax { offset: 0 })
    } else if i >= s.len() {
        Ok(Seq::empty())
    } else if fuel == 0 {
        Err(ErrorKindV::Syntax { offset: i })
    } else {
        let c = s[i];
        if is_pdl_ws(c) {
            lex_pdl(s, i + 1, (fuel - 1) as nat)
        } else if c == '#' {
            lex_pdl(s, find_line_end(s, i), (fuel - 1) as nat)
        } else if c == '(' {
            cons_ptok(PdlTokV::LParen, lex_pdl(s, i + 1, (fuel - 1) as nat))
        } else if c == ')' {
            cons_ptok(PdlTokV::RParen, lex_pdl(s, i + 1, (fuel - 1) as nat))
        } else if c == '[' {
            cons_ptok(PdlTokV::LBracket, lex_pdl(s, i + 1, (fuel - 1) as nat))
        } else if c == ']' {
            cons_ptok(PdlTokV::RBracket, lex_pdl(s, i + 1, (fuel - 1) as nat))
        } else if c == ',' {
            cons_ptok(PdlTokV::Comma, lex_pdl(s, i + 1, (fuel - 1) as nat))
        } else if c == '=' {
            cons_ptok(PdlTokV::Eq, lex_pdl(s, i + 1, (fuel - 1) as nat))
        } else if c == '"' || c == '\'' {
            match scan_string(s, i + 1, Seq::empty(), c) {
                Ok(p) => cons_ptok(PdlTokV::Str(p.0), lex_pdl(s, p.1, (fuel - 1) as nat)),
                Err(e) => Err(e),
            }
        } else if is_ident_start(c) {
            let p = scan_ident(s, i, Seq::empty());
            cons_ptok(PdlTokV::Ident(p.0), lex_pdl(s, p.1, (fuel - 1) as nat))
        } else {
            Err(ErrorKindV::Syntax { offset: i })
        }
    }
}

/// Exec test for [`is_ident_start`].
fn check_ident_start(c: char) -> (r: bool)
    ensures
        r == is_ident_start(c),
{
    ('a' <= c && c <= 'z') || ('A' <= c && c <= 'Z') || c == '_'
}

/// Exec test for [`is_ident_char`].
fn check_ident_char(c: char) -> (r: bool)
    ensures
        r == is_ident_char(c),
{
    check_ident_start(c) || ('0' <= c && c <= '9')
}

/// Exec mirror of [`scan_ident`].
fn scan_ident_exec(s: &Vec<char>, i: usize, acc: Vec<char>) -> (r: (Vec<char>, usize))
    requires
        i <= s@.len(),
    ensures
        r.1 <= s@.len() && scan_ident(s@, i as int, acc@) == (r.0@, r.1 as int),
    decreases s@.len() - i,
{
    if i >= s.len() {
        return (acc, i);
    }
    let c = s[i];
    if check_ident_char(c) {
        let mut acc2 = acc;
        acc2.push(c);
        scan_ident_exec(s, i + 1, acc2)
    } else {
        (acc, i)
    }
}

/// Exec mirror of [`scan_string`].
fn scan_string_exec(s: &Vec<char>, i: usize, acc: Vec<char>, q: char) -> (r: Result<
    (Vec<char>, usize),
    ErrorKind,
>)
    requires
        i <= s@.len(),
    ensures
        ({
            let m = scan_string(s@, i as int, acc@, q);
            match r {
                Ok(p) => p.1 <= s@.len() && m == Ok::<_, ErrorKindV>((p.0@, p.1 as int)),
                Err(e) => m == Err::<(Seq<char>, int), ErrorKindV>(e@),
            }
        }),
    decreases s@.len() - i,
{
    if i >= s.len() {
        return Err(ErrorKind::Syntax { offset: i });
    }
    let c = s[i];
    if c == q {
        Ok((acc, i + 1))
    } else if c == '\\' {
        if i + 1 >= s.len() {
            Err(ErrorKind::Syntax { offset: i })
        } else {
            let e = s[i + 1];
            let mapped = if e == '\\' {
                Some('\\')
            } else if e == '"' {
                Some('"')
            } else if e == '\'' {
                Some('\'')
            } else if e == 'n' {
                Some('\n')
            } else if e == 't' {
                Some('\t')
            } else {
                None
            };
            match mapped {
                Some(mc) => {
                    let mut acc2 = acc;
                    acc2.push(mc);
                    scan_string_exec(s, i + 2, acc2, q)
                },
                None => Err(ErrorKind::Syntax { offset: i }),
            }
        }
    } else {
        let mut acc2 = acc;
        acc2.push(c);
        scan_string_exec(s, i + 1, acc2, q)
    }
}

/// Exec mirror of [`find_line_end`].
fn find_line_end_exec(s: &Vec<char>, i: usize) -> (r: usize)
    requires
        i <= s@.len(),
    ensures
        i <= r <= s@.len(),
        r as int == find_line_end(s@, i as int),
    decreases s@.len() - i,
{
    if i >= s.len() {
        return s.len();
    }
    if s[i] == '\n' {
        i
    } else {
        find_line_end_exec(s, i + 1)
    }
}

/// Puts one token in front of a lexing result.
fn prepend_ptok(t: PdlTok, rest: Result<Vec<PdlTok>, ErrorKind>) -> (r: Result<
    Vec<PdlTok>,
    ErrorKind,
>)
    ensures
        ({
            let restv = match rest {
                Ok(ts) => Ok(ts@.map_values(|x: PdlTok| x@)),
                Err(e) => Err(e@),
            };
            let m = cons_ptok(t@, restv);
            match r {
                Ok(ts) => m == Ok::<_, ErrorKindV>(ts@.map_values(|x: PdlTok| x@)),
                Err(e) => m == Err::<Seq<PdlTokV>, ErrorKindV>(e@),
            }
        }),
{
    match rest {
        Ok(ts) => {
            let mut ts2 = ts;
            ts2.insert(0, t);
            proof {
                let ghost tv = t@;
                assert(ts2@.map_values(|x: PdlTok| x@) =~= seq![tv] + ts2@.skip(1).map_values(
                    |x: PdlTok| x@,
                ));
                assert(ts2@.skip(1) =~= ts@);
            }
            Ok(ts2)
        },
        Err(e) => Err(e),
    }
}

/// Exec mirror of [`lex_pdl`].
pub fn lex_pdl_exec(s: &Vec<char>, i: usize, fuel: usize) -> (r: Result<Vec<PdlTok>, ErrorKind>)
    requires
        i <= s@.len(),
    ensures
        ({
            let m = lex_pdl(s@, i as int, fuel as nat);
            match r {
                Ok(ts) => m == Ok::<_, ErrorKindV>(ts@.map_values(|t: PdlTok| t@)),
                Err(e) => m == Err::<Seq<PdlTokV>, ErrorKindV>(e@),
            }
        }),
    decreases fuel,
{
    if i >= s.len() {
        let out: Vec<PdlTok> = Vec::new();
        proof {
            assert(out@.map_values(|t: PdlTok| t@) =~= Seq::<PdlTokV>::empty());
        }
        return Ok(out);
    }
    if fuel == 0 {
        return Err(ErrorKind::Syntax { offset: i });
    }
    let c = s[i];
    if c == ' ' || c == '\t' || c == '\r' || c == '\n' {
        lex_pdl_exec(s, i + 1, fuel - 1)
    } else if c == '#' {
        let j = find_line_end_exec(s, i);
        lex_pdl_exec(s, j, fuel - 1)
    } else if c == '(' {
        prepend_ptok(PdlTok::LParen, lex_pdl_exec(s, i + 1, fuel - 1))
    } else if c == ')' {
        prepend_ptok(PdlTok::RParen, lex_pdl_exec(s, i + 1, fuel - 1))
    } else if c == '[' {
        prepend_ptok(PdlTok::LBracket, lex_pdl_exec(s, i + 1, fuel - 1))
    } else if c == ']' {
        prepend_ptok(PdlTok::RBracket, lex_pdl_exec(s, i + 1, fuel - 1))
    } else if c == ',' {
        prepend_ptok(PdlTok::Comma, lex_pdl_exec(s, i + 1, fuel - 1))
    } else if c == '=' {
        prepend_ptok(PdlTok::Eq, lex_pdl_exec(s, i + 1, fuel - 1))
    } else if c == '"' || c == '\'' {
        match scan_string_exec(s, i + 1, Vec::new(), c) {
            Ok(p) => {
                let (w, j) = p;
                prepend_ptok(PdlTok::Str(w), lex_pdl_exec(s, j, fuel - 1))
            },
            Err(e) => Err(e),
        }
    } else if check_ident_start(c) {
        let (w, j) = scan_ident_exec(s, i, Vec::new());
        prepend_ptok(PdlTok::Ident(w), lex_pdl_exec(s, j, fuel - 1))
    } else {
        Err(ErrorKind::Syntax { offset: i })
    }
}

} // verus!
