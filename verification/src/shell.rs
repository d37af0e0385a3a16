//! The shell decomposer: a recognized shell invoked as `shell -c script` (or
//! `-lc`) has its inline script split into the plain commands it sequences,
//! honoring quoting and splitting on `;`, newlines, `&&` and `||`. Anything
//! the decomposer does not understand — pipelines, redirections, expansions,
//! subshells, escapes — makes the whole invocation one opaque command:
//! failure to decompose is never fatal, it only loses precision.

use vstd::prelude::*;
use crate::text::{chars_eq_str, chars_to_string, spec_basename, str_to_chars, basename_chars};

verus! {

/// One lexed script token: a word, or a command separator.
pub enum ScriptTokV {
    Word(Seq<char>),
    Sep,
}

/// Whitespace inside a command (a newline separates commands instead).
pub open spec fn is_space(c: char) -> bool {
    c == ' ' || c == '\t' || c == '\r'
}

/// A one-character command separator.
pub open spec fn is_sep_char(c: char) -> bool {
    c == ';' || c == '\n'
}

/// A character the decomposer refuses outside quotes: it would mean
/// expansion, redirection, globbing, a subshell, an escape or a comment.
pub open spec fn is_bail_char(c: char) -> bool {
    c == '$' || c == '`' || c == '(' || c == ')' || c == '<' || c == '>' || c == '*' || c == '?'
        || c == '~' || c == '{' || c == '}' || c == '[' || c == ']' || c == '!' || c == '#'
        || c == '\\'
}

/// A character that may stand in a word unquoted.
pub open spec fn is_plain_char(c: char) -> bool {
    &&& !is_space(c)
    &&& !is_sep_char(c)
    &&& c != '&'
    &&& c != '|'
    &&& c != '\''
    &&& c != '"'
    &&& !is_bail_char(c)
}

/// Scans one word from position `i`, accumulating into `acc`; quotes hand
/// over to [`scan_quoted`]. Yields the word and the position after it, or
/// nothing when a quote never closes or holds what the decomposer refuses.
pub open spec fn scan_word(s: Seq<char>, i: int, acc: Seq<char>) -> Option<(Seq<char>, int)>
    decreases s.len() - i, 0int,
{
    if i < 0 || i >= s.len() {
        Some((acc, if i < 0 { 0 } else { i }))
    } else {
        let c = s[i];
        if is_plain_char(c) {
            scan_word(s, i + 1, acc.push(c))
        } else if c == '\'' || c == '"' {
            scan_quoted(s, i + 1, acc, c)
        } else {
            Some((acc, i))
        }
    }
}

/// Scans the inside of a quoted segment opened with `q`. Inside single
/// quotes everything is literal; inside double quotes `$`, a backtick and a
/// backslash are refused (they would mean expansion).
pub open spec fn scan_quoted(s: Seq<char>, i: int, acc: Seq<char>, q: char) -> Option<
    (Seq<char>, int),
>
    decreases s.len() - i, 1int,
{
    if i < 0 || i >= s.len() {
        None
    } else {
        let c = s[i];
        if c == q {
            scan_word(s, i + 1, acc)
        } else if q == '"' && (c == '$' || c == '`' || c == '\\') {
            None
        } else {
            scan_quoted(s, i + 1, acc.push(c), q)
        }
    }
}

/// Lexes the script from position `i` into words and separators, or nothing
/// when the script holds what the decomposer refuses. `fuel` bounds the
/// recursion; every step consumes at least one character and the end of the
/// script is reached first, so the callers hand in the script's length.
pub open spec fn lex_script(s: Seq<char>, i: int, fuel: nat) -> Option<Seq<ScriptTokV>>
    decreases fuel,
{
    if i < 0 {
        None
    } else if i >= s.len() {
        Some(Seq::empty())
    } else if fuel == 0 {
        None
    } else {
        let c = s[i];
        if is_space(c) {
            lex_script(s, i + 1, (fuel - 1) as nat)
        } else if is_sep_char(c) {
            cons_tok(ScriptTokV::Sep, lex_script(s, i + 1, (fuel - 1) as nat))
        } else if c == '&' {
            if i + 1 < s.len() && s[i + 1] == '&' {
                cons_tok(ScriptTokV::Sep, lex_script(s, i + 2, (fuel - 1) as nat))
            } else {
                None
            }
        } else if c == '|' {
            if i + 1 < s.len() && s[i + 1] == '|' {
                cons_tok(ScriptTokV::Sep, lex_script(s, i + 2, (fuel - 1) as nat))
            } else {
                None
            }
        } else if is_plain_char(c) || c == '\'' || c == '"' {
            match scan_word(s, i, Seq::empty()) {
                Some(p) => cons_tok(ScriptTokV::Word(p.0), lex_script(s, p.1, (fuel - 1) as nat)),
                None => None,
            }
        } else {
            None
        }
    }
}

/// Puts one token in front of a lexing result.
pub open spec fn cons_tok(t: ScriptTokV, rest: Option<Seq<ScriptTokV>>) -> Option<Seq<ScriptTokV>> {
    match rest {
        Some(ts) => Some(seq![t] + ts),
        None => None,
    }
}

/// Groups the lexed tokens into commands at the separators. Every segment
/// must hold at least one word: a leading, trailing or doubled separator,
/// and an empty script, refuse decomposition.
pub open spec fn split_cmds(
    toks: Seq<ScriptTokV>,
    i: int,
    cur: Seq<Seq<char>>,
    out: Seq<Seq<Seq<char>>>,
) -> Option<Seq<Seq<Seq<char>>>>
    decreases toks.len() - i,
{
    if i < 0 {
        None
    } else if i >= toks.len() {
        if cur.len() > 0 {
            Some(out.push(cur))
        } else {
            None
        }
    } else {
        match toks[i] {
            ScriptTokV::Word(w) => split_cmds(toks, i + 1, cur.push(w), out),
            ScriptTokV::Sep => if cur.len() == 0 {
                None
            } else {
                split_cmds(toks, i + 1, Seq::empty(), out.push(cur))
            },
        }
    }
}

/// What decomposing an inline script yields: the sequenced plain commands,
/// or nothing when the script holds anything beyond plain words, quotes and
/// the separators. The lexer's fuel is the script's length: every lexing
/// step consumes at least one character, and the end of the script is
/// reached before the fuel runs out.
pub open spec fn script_commands(script: Seq<char>) -> Option<Seq<Seq<Seq<char>>>> {
    match lex_script(script, 0, script.len() as nat) {
        Some(toks) => split_cmds(toks, 0, Seq::empty(), Seq::empty()),
        None => None,
    }
}

/// A recognized shell program name.
pub open spec fn is_shell_name(s: Seq<char>) -> bool {
    s == "bash"@ || s == "sh"@ || s == "zsh"@
}

/// An inline-script flag of the `-c` family.
pub open spec fn is_lc_flag(s: Seq<char>) -> bool {
    s == "-c"@ || s == "-lc"@
}

/// The argv invokes a recognized shell with an inline-script flag and
/// exactly one script argument.
pub open spec fn is_shell_lc_shape(cmd: Seq<Seq<char>>) -> bool {
    &&& cmd.len() == 3
    &&& is_shell_name(spec_basename(cmd[0]))
    &&& is_lc_flag(cmd[1])
}

/// What the decomposer yields for a full argv.
pub open spec fn shell_decompose_model(cmd: Seq<Seq<char>>) -> Option<Seq<Seq<Seq<char>>>> {
    if is_shell_lc_shape(cmd) {
        script_commands(cmd[2])
    } else {
        None
    }
}

/// The inner commands an argv stands for: what the decomposer found, or the
/// argv itself as one opaque command.
pub open spec fn effective_commands(cmd: Seq<Seq<char>>) -> Seq<Seq<Seq<char>>> {
    match shell_decompose_model(cmd) {
        Some(cs) => cs,
        None => seq![cmd],
    }
}

/// One lexed script token, executable form.
pub enum ScriptTok {
    Word(Vec<char>),
    Sep,
}

impl View for ScriptTok {
    type V = ScriptTokV;

    open spec fn view(&self) -> ScriptTokV {
        match self {
            ScriptTok::Word(w) => ScriptTokV::Word(w@),
            ScriptTok::Sep => ScriptTokV::Sep,
        }
    }
}

/// Exec test for [`is_plain_char`].
fn check_plain_char(c: char) -> (r: bool)
    ensures
        r == is_plain_char(c),
{
    !(c == ' ' || c == '\t' || c == '\r') && !(c == ';' || c == '\n') && c != '&' && c != '|' && c
        != '\'' && c != '"' && !(c == '$' || c == '`' || c == '(' || c == ')' || c == '<' || c
        == '>' || c == '*' || c == '?' || c == '~' || c == '{' || c == '}' || c == '[' || c == ']'
        || c == '!' || c == '#' || c == '\\')
}

/// Exec mirror of [`scan_word`].
fn scan_word_exec(s: &Vec<char>, i: usize, acc: Vec<char>) -> (r: Option<(Vec<char>, usize)>)
    requires
        i <= s@.len(),
    ensures
        ({
            let m = scan_word(s@, i as int, acc@);
            match r {
                Some(p) => p.1 <= s@.len() && m == Some((p.0@, p.1 as int)),
                None => m is None,
            }
        }),
    decreases s@.len() - i, 0int,
{
    if i >= s.len() {
        return Some((acc, i));
    }
    let c = s[i];
    if check_plain_char(c) {
        let mut acc2 = acc;
        acc2.push(c);
        scan_word_exec(s, i + 1, acc2)
    } else if c == '\'' || c == '"' {
        scan_quoted_exec(s, i + 1, acc, c)
    } else {
        Some((acc, i))
    }
}

/// Exec mirror of [`scan_quoted`].
fn scan_quoted_exec(s: &Vec<char>, i: usize, acc: Vec<char>, q: char) -> (r: Option<
    (Vec<char>, usize),
>)
    requires
        i <= s@.len(),
    ensures
        ({
            let m = scan_quoted(s@, i as int, acc@, q);
            match r {
                Some(p) => p.1 <= s@.len() && m == Some((p.0@, p.1 as int)),
                None => m is None,
            }
        }),
    decreases s@.len() - i, 1int,
{
    if i >= s.len() {
        return None;
    }
    let c = s[i];
    if c == q {
        scan_word_exec(s, i + 1, acc)
    } else if q == '"' && (c == '$' || c == '`' || c == '\\') {
        None
    } else {
        let mut acc2 = acc;
        acc2.push(c);
        scan_quoted_exec(s, i + 1, acc2, q)
    }
}

/// Exec mirror of [`lex_script`].
fn lex_script_exec(s: &Vec<char>, i: usize, fuel: usize) -> (r: Option<Vec<ScriptTok>>)
    requires
        i <= s@.len(),
    ensures
        ({
            let m = lex_script(s@, i as int, fuel as nat);
            match r {
                Some(ts) => m == Some(ts@.map_values(|t: ScriptTok| t@)),
                None => m is None,
            }
        }),
    decreases fuel,
{
    if i >= s.len() {
        let out: Vec<ScriptTok> = Vec::new();
        proof {
            assert(out@.map_values(|t: ScriptTok| t@) =~= Seq::<ScriptTokV>::empty());
        }
        return Some(out);
    }
    if fuel == 0 {
        return None;
    }
    let c = s[i];
    if c == ' ' || c == '\t' || c == '\r' {
        lex_script_exec(s, i + 1, fuel - 1)
    } else if c == ';' || c == '\n' {
        prepend_tok(ScriptTok::Sep, lex_script_exec(s, i + 1, fuel - 1))
    } else if c == '&' {
        if i + 1 < s.len() && s[i + 1] == '&' {
            prepend_tok(ScriptTok::Sep, lex_script_exec(s, i + 2, fuel - 1))
        } else {
            None
        }
    } else if c == '|' {
        if i + 1 < s.len() && s[i + 1] == '|' {
            prepend_tok(ScriptTok::Sep, lex_script_exec(s, i + 2, fuel - 1))
        } else {
            None
        }
    } else if check_plain_char(c) || c == '\'' || c == '"' {
        match scan_word_exec(s, i, Vec::new()) {
            Some(p) => {
                let (w, j) = p;
                prepend_tok(ScriptTok::Word(w), lex_script_exec(s, j, fuel - 1))
            },
            None => None,
        }
    } else {
        None
    }
}

/// Puts one token in front of a lexing result.
fn prepend_tok(t: ScriptTok, rest: Option<Vec<ScriptTok>>) -> (r: Option<Vec<ScriptTok>>)
    ensures
        ({
            let restv = match rest {
                Some(ts) => Some(ts@.map_values(|x: ScriptTok| x@)),
                None => None,
            };
            let m = cons_tok(t@, restv);
            match r {
                Some(ts) => m == Some(ts@.map_values(|x: ScriptTok| x@)),
                None => m is None,
            }
        }),
{
    match rest {
        Some(ts) => {
            let mut ts2 = ts;
            ts2.insert(0, t);
            proof {
                let ghost tv = t@;
                assert(ts2@.map_values(|x: ScriptTok| x@) =~= seq![tv] + ts2@.skip(1).map_values(
                    |x: ScriptTok| x@,
                ));
                assert(ts2@.skip(1) =~= ts@);
            }
            Some(ts2)
        },
        None => None,
    }
}

/// Exec mirror of [`split_cmds`], producing plain string tokens.
fn split_cmds_exec(toks: &Vec<ScriptTok>, i: usize, cur: Vec<String>, out: Vec<Vec<String>>) -> (r:
    Option<Vec<Vec<String>>>)
    requires
        i <= toks@.len(),
    ensures
        ({
            let m = split_cmds(
                toks@.map_values(|t: ScriptTok| t@),
                i as int,
                cur.deep_view(),
                out.deep_view(),
            );
            match r {
                Some(cs) => m == Some(cs.deep_view()),
                None => m is None,
            }
        }),
    decreases toks@.len() - i,
{
    let ghost tv = toks@.map_values(|t: ScriptTok| t@);
    if i >= toks.len() {
        if cur.len() > 0 {
            let mut out2 = out;
            out2.push(cur);
            proof {
                assert(out2.deep_view() =~= out.deep_view().push(out2@[out2@.len() - 1].deep_view()));
            }
            return Some(out2);
        } else {
            proof {
                assert(cur.deep_view().len() == cur@.len());
            }
            return None;
        }
    }
    proof {
        assert(tv[i as int] == toks@[i as int]@);
    }
    match &toks[i] {
        ScriptTok::Word(w) => {
            let ws = chars_to_string(w);
            let mut cur2 = cur;
            cur2.push(ws);
            proof {
                assert(cur2.deep_view() =~= cur.deep_view().push(w@));
            }
            split_cmds_exec(toks, i + 1, cur2, out)
        },
        ScriptTok::Sep => {
            if cur.len() == 0 {
                proof {
                    assert(cur.deep_view().len() == cur@.len());
                }
                None
            } else {
                proof {
                    assert(cur.deep_view().len() == cur@.len());
                }
                let mut out2 = out;
                out2.push(cur);
                let fresh: Vec<String> = Vec::new();
                proof {
                    assert(out2.deep_view() =~= out.deep_view().push(
                        out2@[out2@.len() - 1].deep_view(),
                    ));
                    assert(fresh.deep_view() =~= Seq::<Seq<char>>::empty());
                }
                split_cmds_exec(toks, i + 1, fresh, out2)
            }
        },
    }
}

/// Extracts the plain inner commands of a `shell -c script` invocation, or
/// nothing when the argv has another shape or the script cannot be
/// decomposed; the caller then treats the whole argv as one opaque command.
pub fn parse_shell_lc_plain_commands(command: &Vec<String>) -> (r: Option<Vec<Vec<String>>>)
    ensures
        ({
            let m = shell_decompose_model(command.deep_view());
            match r {
                Some(cs) => m == Some(cs.deep_view()),
                None => m is None,
            }
        }),
{
    let ghost cv = command.deep_view();
    if command.len() != 3 {
        return None;
    }
    let prog = str_to_chars(command[0].as_str());
    let base = basename_chars(&prog);
    proof {
        assert(prog@ == cv[0]);
    }
    let shell_ok = chars_eq_str(&base, "bash") || chars_eq_str(&base, "sh") || chars_eq_str(
        &base,
        "zsh",
    );
    if !shell_ok {
        return None;
    }
    let flag = str_to_chars(command[1].as_str());
    proof {
        assert(flag@ == cv[1]);
    }
    let flag_ok = chars_eq_str(&flag, "-c") || chars_eq_str(&flag, "-lc");
    if !flag_ok {
        return None;
    }
    let script = str_to_chars(command[2].as_str());
    proof {
        assert(script@ == cv[2]);
    }
    let n = script.len();
    match lex_script_exec(&script, 0, n) {
        Some(toks) => {
            let cur0: Vec<String> = Vec::new();
            let out0: Vec<Vec<String>> = Vec::new();
            proof {
                assert(cur0.deep_view() =~= Seq::<Seq<char>>::empty());
                assert(out0.deep_view() =~= Seq::<Seq<Seq<char>>>::empty());
            }
            split_cmds_exec(&toks, 0, cur0, out0)
        },
        None => None,
    }
}

} // verus!
