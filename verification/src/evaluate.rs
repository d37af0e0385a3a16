//! The evaluator: structural matching of one command against a program spec,
//! per-command checking against the whole policy, and the severity-maximum
//! combination of several inner commands' verdicts.
//!
//! Matching consults the filesystem only through [`TokenFacts`] taken up
//! front, so the algorithm itself is a pure function of the command, the
//! policy and those facts.

use vstd::prelude::*;
use crate::matcher::{TokenFacts, is_option_token, check_option_token, matcher_accepts,
    check_matcher_accepts};
use crate::policy::{ArgMatcher, Decision, DecisionV, Evaluation, EvaluationV, Opt, OptKind, OptV,
    Policy, PolicyV, ProgramSpec, ProgramSpecV, RegexRuleV};
use crate::text::{chars_eq_str, chars_subrange, chars_to_string, contains_sub, contains_substr,
    dirname_chars, join_tokens, spec_basename, spec_dirname, str_to_chars, basename_chars};

verus! {

/// First position of `c` in `s` at or after `i`, or `-1`.
pub open spec fn first_pos_from(s: Seq<char>, c: char, i: int) -> int
    decreases s.len() - i,
{
    if i < 0 || i >= s.len() {
        -1
    } else if s[i] == c {
        i
    } else {
        first_pos_from(s, c, i + 1)
    }
}

/// Position of the first `c` in `v`, or none.
pub fn find_char(v: &Vec<char>, c: char) -> (r: Option<usize>)
    ensures
        match r {
            Some(k) => k < v@.len() && first_pos_from(v@, c, 0) == k as int,
            None => first_pos_from(v@, c, 0) == -1,
        },
{
    let mut i: usize = 0;
    while i < v.len()
        invariant
            i <= v@.len(),
            first_pos_from(v@, c, 0) == first_pos_from(v@, c, i as int),
        decreases v@.len() - i,
    {
        if v[i] == c {
            return Some(i);
        }
        i = i + 1;
    }
    None
}

/// First index at or after `j` whose option is named `name`, or `-1`.
pub open spec fn find_opt_from(opts: Seq<OptV>, name: Seq<char>, j: int) -> int
    decreases opts.len() - j,
{
    if j < 0 || j >= opts.len() {
        -1
    } else if opts[j].name == name {
        j
    } else {
        find_opt_from(opts, name, j + 1)
    }
}

/// Index of the option named `name`, or none.
fn find_opt(opts: &Vec<Opt>, name: &Vec<char>) -> (r: Option<usize>)
    ensures
        ({
            let ov = opts@.map_values(|o: Opt| o@);
            match r {
                Some(k) => k < opts@.len() && find_opt_from(ov, name@, 0) == k as int,
                None => find_opt_from(ov, name@, 0) == -1,
            }
        }),
{
    let ghost ov = opts@.map_values(|o: Opt| o@);
    let mut j: usize = 0;
    while j < opts.len()
        invariant
            ov == opts@.map_values(|o: Opt| o@),
            j <= opts@.len(),
            find_opt_from(ov, name@, 0) == find_opt_from(ov, name@, j as int),
        decreases opts@.len() - j,
    {
        proof {
            assert(ov[j as int] == opts@[j as int]@);
        }
        if chars_eq_str(name, opts[j].name.as_str()) {
            return Some(j);
        }
        j = j + 1;
    }
    None
}

/// Copies a seen-vector.
fn copy_bools(v: &Vec<bool>) -> (r: Vec<bool>)
    ensures
        r@ == v@,
{
    let mut r: Vec<bool> = Vec::new();
    let mut i: usize = 0;
    while i < v.len()
        invariant
            i <= v@.len(),
            r@ == v@.take(i as int),
        decreases v@.len() - i,
    {
        r.push(v[i]);
        proof {
            assert(v@.take((i + 1) as int) =~= v@.take(i as int).push(v@[i as int]));
        }
        i = i + 1;
    }
    proof {
        assert(v@.take(v@.len() as int) =~= v@);
    }
    r
}

/// Marks each single-character flag of a bundled token, from position `j`
/// on: every character must name a declared `-x` flag.
pub open spec fn bundle_flags(opts: Seq<OptV>, cs: Seq<char>, j: int, seen: Seq<bool>) -> Option<
    Seq<bool>,
>
    decreases cs.len() - j,
{
    if j < 0 || j >= cs.len() {
        Some(seen)
    } else {
        let k = find_opt_from(opts, seq!['-', cs[j]], 0);
        if k >= 0 && opts[k].kind is Flag {
            bundle_flags(opts, cs, j + 1, seen.update(k, true))
        } else {
            None
        }
    }
}

/// Exec mirror of [`bundle_flags`].
fn bundle_flags_exec(opts: &Vec<Opt>, cs: &Vec<char>, j: usize, seen: Vec<bool>) -> (r: Option<
    Vec<bool>,
>)
    requires
        j <= cs@.len(),
        seen@.len() == opts@.len(),
    ensures
        ({
            let m = bundle_flags(opts@.map_values(|o: Opt| o@), cs@, j as int, seen@);
            match r {
                Some(s2) => s2@.len() == opts@.len() && m == Some(s2@),
                None => m is None,
            }
        }),
    decreases cs@.len() - j,
{
    if j >= cs.len() {
        return Some(seen);
    }
    let mut name: Vec<char> = Vec::new();
    name.push('-');
    name.push(cs[j]);
    proof {
        assert(name@ =~= seq!['-', cs@[j as int]]);
    }
    match find_opt(opts, &name) {
        Some(k) => {
            let is_flag = match opts[k].kind {
                OptKind::Flag => true,
                OptKind::Value(_) => false,
            };
            proof {
                assert(opts@.map_values(|o: Opt| o@)[k as int] == opts@[k as int]@);
            }
            if is_flag {
                let mut seen2 = seen;
                seen2.set(k, true);
                bundle_flags_exec(opts, cs, j + 1, seen2)
            } else {
                None
            }
        },
        None => None,
    }
}

/// Walks the leading option-shaped tokens from position `i`, consuming
/// values, honoring bundling and the combined `--name=value` format.
/// Yields the position of the first positional token and which options were
/// seen. A dash-shaped token that is no declared option ends the walk and
/// falls to the positional matchers; a declared option whose value fails
/// its validation stops the spec from matching.
pub open spec fn match_options(
    opts: Seq<OptV>,
    bundling: bool,
    combined: bool,
    toks: Seq<Seq<char>>,
    facts: Seq<TokenFacts>,
    i: int,
    seen: Seq<bool>,
) -> Option<(int, Seq<bool>)>
    decreases toks.len() - i,
{
    if i < 0 || i >= toks.len() {
        Some((i, seen))
    } else {
        let t = toks[i];
        if !is_option_token(t) {
            Some((i, seen))
        } else if combined && first_pos_from(t, '=', 0) >= 0 {
            let e = first_pos_from(t, '=', 0);
            let name = t.take(e);
            let value = t.skip(e + 1);
            let k = find_opt_from(opts, name, 0);
            if k >= 0 {
                match opts[k].kind {
                    OptKind::Value(m) => if matcher_accepts(
                        m,
                        value,
                        facts[i].value_readable,
                        facts[i].value_writable,
                    ) {
                        match_options(opts, bundling, combined, toks, facts, i + 1, seen.update(k, true))
                    } else {
                        None
                    },
                    OptKind::Flag => None,
                }
            } else {
                Some((i, seen))
            }
        } else {
            let k = find_opt_from(opts, t, 0);
            if k >= 0 {
                match opts[k].kind {
                    OptKind::Flag => match_options(
                        opts,
                        bundling,
                        combined,
                        toks,
                        facts,
                        i + 1,
                        seen.update(k, true),
                    ),
                    OptKind::Value(m) => if i + 1 < toks.len() && matcher_accepts(
                        m,
                        toks[i + 1],
                        facts[i + 1].readable,
                        facts[i + 1].writable,
                    ) {
                        match_options(opts, bundling, combined, toks, facts, i + 2, seen.update(k, true))
                    } else {
                        None
                    },
                }
            } else if bundling && t.len() >= 2 && t[0] == '-' && t[1] != '-' {
                match bundle_flags(opts, t, 1, seen) {
                    Some(s2) => match_options(opts, bundling, combined, toks, facts, i + 1, s2),
                    None => Some((i, seen)),
                }
            } else {
                Some((i, seen))
            }
        }
    }
}

/// Exec mirror of [`match_options`].
fn match_options_exec(
    opts: &Vec<Opt>,
    bundling: bool,
    combined: bool,
    toks: &Vec<Vec<char>>,
    facts: &Vec<TokenFacts>,
    i: usize,
    seen: Vec<bool>,
) -> (r: Option<(usize, Vec<bool>)>)
    requires
        facts@.len() == toks@.len(),
        i <= toks@.len(),
        seen@.len() == opts@.len(),
    ensures
        ({
            let m = match_options(
                opts@.map_values(|o: Opt| o@),
                bundling,
                combined,
                toks.deep_view(),
                facts@,
                i as int,
                seen@,
            );
            match r {
                Some(p) => p.0 <= toks@.len() && p.1@.len() == opts@.len() && m == Some(
                    (p.0 as int, p.1@),
                ),
                None => m is None,
            }
        }),
    decreases toks@.len() - i,
{
    let ghost ov = opts@.map_values(|o: Opt| o@);
    let ghost tv = toks.deep_view();
    proof {
        assert(tv.len() == toks@.len());
        assert(forall|q: int| 0 <= q < tv.len() ==> tv[q] == #[trigger] toks@[q]@);
    }
    if i >= toks.len() {
        return Some((i, seen));
    }
    let t = &toks[i];
    if !check_option_token(t) {
        return Some((i, seen));
    }
    let eq_pos = if combined {
        find_char(t, '=')
    } else {
        None
    };
    if combined && eq_pos.is_some() {
        let e = eq_pos.unwrap();
        let n = t.len();
        let name = chars_subrange(t, 0, e);
        let value = chars_subrange(t, e + 1, n);
        proof {
            assert(name@ == tv[i as int].take(e as int));
            assert(value@ == tv[i as int].skip(e as int + 1));
        }
        match find_opt(opts, &name) {
            Some(k) => {
                proof {
                    assert(ov[k as int] == opts@[k as int]@);
                }
                match opts[k].kind {
                    OptKind::Value(m) => {
                        if check_matcher_accepts(
                            m,
                            &value,
                            facts[i].value_readable,
                            facts[i].value_writable,
                        ) {
                            let mut seen2 = seen;
                            seen2.set(k, true);
                            match_options_exec(opts, bundling, combined, toks, facts, i + 1, seen2)
                        } else {
                            None
                        }
                    },
                    OptKind::Flag => None,
                }
            },
            None => Some((i, seen)),
        }
    } else {
        match find_opt(opts, t) {
            Some(k) => {
                proof {
                    assert(ov[k as int] == opts@[k as int]@);
                }
                match opts[k].kind {
                    OptKind::Flag => {
                        let mut seen2 = seen;
                        seen2.set(k, true);
                        match_options_exec(opts, bundling, combined, toks, facts, i + 1, seen2)
                    },
                    OptKind::Value(m) => {
                        if i + 1 < toks.len() {
                            let accepted = check_matcher_accepts(
                                m,
                                &toks[i + 1],
                                facts[i + 1].readable,
                                facts[i + 1].writable,
                            );
                            if accepted {
                                let mut seen2 = seen;
                                seen2.set(k, true);
                                match_options_exec(
                                    opts,
                                    bundling,
                                    combined,
                                    toks,
                                    facts,
                                    i + 2,
                                    seen2,
                                )
                            } else {
                                None
                            }
                        } else {
                            None
                        }
                    },
                }
            },
            None => {
                if bundling && t.len() >= 2 && t[0] == '-' && t[1] != '-' {
                    let seen2 = copy_bools(&seen);
                    match bundle_flags_exec(opts, t, 1, seen2) {
                        Some(s2) => match_options_exec(
                            opts,
                            bundling,
                            combined,
                            toks,
                            facts,
                            i + 1,
                            s2,
                        ),
                        None => Some((i, seen)),
                    }
                } else {
                    Some((i, seen))
                }
            },
        }
    }
}

/// Matches the tokens from position `i` on against the positional matchers
/// from slot `j` on. A variadic matcher is legal only in the last slot,
/// where it consumes the whole remaining tail.
pub open spec fn match_positionals(
    pargs: Seq<ArgMatcher>,
    toks: Seq<Seq<char>>,
    facts: Seq<TokenFacts>,
    i: int,
    j: int,
) -> bool
    decreases pargs.len() - j,
{
    if j < 0 || j >= pargs.len() {
        i == toks.len()
    } else if pargs[j].is_variadic() {
        &&& j == pargs.len() - 1
        &&& 0 <= i <= toks.len()
        &&& match pargs[j] {
            ArgMatcher::ReadableFiles => i < toks.len() && forall|k: int|
                i <= k < toks.len() ==> (#[trigger] facts[k]).readable,
            ArgMatcher::ReadableFilesOrCwd => forall|k: int|
                i <= k < toks.len() ==> (#[trigger] facts[k]).readable,
            ArgMatcher::UnverifiedVarargs => true,
            _ => false,
        }
    } else if i < 0 || i >= toks.len() {
        false
    } else {
        matcher_accepts(pargs[j], toks[i], facts[i].readable, facts[i].writable)
            && match_positionals(pargs, toks, facts, i + 1, j + 1)
    }
}

/// All tokens from `i` on have readable facts.
fn all_readable_from(facts: &Vec<TokenFacts>, i: usize) -> (r: bool)
    requires
        i <= facts@.len(),
    ensures
        r == forall|k: int| i <= k < facts@.len() ==> (#[trigger] facts@[k]).readable,
{
    let mut k: usize = i;
    while k < facts.len()
        invariant
            i <= k <= facts@.len(),
            forall|q: int| i <= q < k ==> (#[trigger] facts@[q]).readable,
        decreases facts@.len() - k,
    {
        if !facts[k].readable {
            return false;
        }
        k = k + 1;
    }
    true
}

/// Exec mirror of [`match_positionals`].
fn match_positionals_exec(
    pargs: &Vec<ArgMatcher>,
    toks: &Vec<Vec<char>>,
    facts: &Vec<TokenFacts>,
    i: usize,
    j: usize,
) -> (r: bool)
    requires
        facts@.len() == toks@.len(),
        i <= toks@.len(),
        j <= pargs@.len(),
    ensures
        r == match_positionals(pargs@, toks.deep_view(), facts@, i as int, j as int),
    decreases pargs@.len() - j,
{
    let ghost tv = toks.deep_view();
    proof {
        assert(tv.len() == toks@.len());
        assert(forall|q: int| 0 <= q < tv.len() ==> tv[q] == #[trigger] toks@[q]@);
    }
    if j >= pargs.len() {
        return i == toks.len();
    }
    let m = pargs[j];
    let variadic = match m {
        ArgMatcher::ReadableFiles | ArgMatcher::ReadableFilesOrCwd
            | ArgMatcher::UnverifiedVarargs => true,
        _ => false,
    };
    if variadic {
        if j != pargs.len() - 1 {
            return false;
        }
        match m {
            ArgMatcher::ReadableFiles => i < toks.len() && all_readable_from(facts, i),
            ArgMatcher::ReadableFilesOrCwd => all_readable_from(facts, i),
            ArgMatcher::UnverifiedVarargs => true,
            _ => false,
        }
    } else if i >= toks.len() {
        false
    } else {
        if check_matcher_accepts(m, &toks[i], facts[i].readable, facts[i].writable) {
            match_positionals_exec(pargs, toks, facts, i + 1, j + 1)
        } else {
            false
        }
    }
}

/// A fresh seen-vector: no option encountered yet.
pub open spec fn seen_init(n: nat) -> Seq<bool> {
    Seq::new(n, |i: int| false)
}

/// Every required option was seen.
pub open spec fn required_ok(opts: Seq<OptV>, seen: Seq<bool>) -> bool {
    forall|k: int| 0 <= k < opts.len() && (#[trigger] opts[k]).required ==> seen[k]
}

/// Exec test for [`required_ok`].
fn check_required(opts: &Vec<Opt>, seen: &Vec<bool>) -> (r: bool)
    requires
        seen@.len() == opts@.len(),
    ensures
        r == required_ok(opts@.map_values(|o: Opt| o@), seen@),
{
    let ghost ov = opts@.map_values(|o: Opt| o@);
    let mut k: usize = 0;
    while k < opts.len()
        invariant
            ov == opts@.map_values(|o: Opt| o@),
            seen@.len() == opts@.len(),
            k <= opts@.len(),
            forall|q: int| 0 <= q < k && (#[trigger] ov[q]).required ==> seen@[q],
        decreases opts@.len() - k,
    {
        proof {
            assert(ov[k as int] == opts@[k as int]@);
        }
        if opts[k].required && !seen[k] {
            return false;
        }
        k = k + 1;
    }
    true
}

/// The spec's argument shape matches the command's argument tokens
/// (positions `1..`): options first, then positionals, with every required
/// option present.
pub open spec fn args_match(s: ProgramSpecV, cmd: Seq<Seq<char>>, facts: Seq<TokenFacts>) -> bool {
    match match_options(
        s.options,
        s.option_bundling,
        s.combined_format,
        cmd,
        facts,
        1,
        seen_init(s.options.len()),
    ) {
        Some((i, seen)) => required_ok(s.options, seen) && match_positionals(
            s.positional_args,
            cmd,
            facts,
            i,
            0,
        ),
        None => false,
    }
}

/// When the spec pins install directories and the program token is an
/// absolute path, the token's directory must be one of them.
pub open spec fn install_dir_ok(s: ProgramSpecV, prog: Seq<char>) -> bool {
    ||| s.allowed_install_dirs.len() == 0
    ||| prog.len() == 0
    ||| prog[0] != '/'
    ||| exists|k: int|
        0 <= k < s.allowed_install_dirs.len() && #[trigger] s.allowed_install_dirs[k]
            == spec_dirname(prog)
}

/// One spec structurally matches one command. A spec whose decision is
/// `Forbidden` matches regardless of the argument tokens.
pub open spec fn spec_matches_cmd(
    s: ProgramSpecV,
    cmd: Seq<Seq<char>>,
    facts: Seq<TokenFacts>,
) -> bool {
    &&& cmd.len() >= 1
    &&& install_dir_ok(s, cmd[0])
    &&& (s.decision is Forbidden || args_match(s, cmd, facts))
}

/// A compiled-in self-test passes: the test's program token names this very
/// spec, and the spec matches the test's tokens.
pub open spec fn self_test_matches(
    s: ProgramSpecV,
    cmd: Seq<Seq<char>>,
    facts: Seq<TokenFacts>,
) -> bool {
    &&& cmd.len() >= 1
    &&& spec_basename(cmd[0]) == s.program
    &&& spec_matches_cmd(s, cmd, facts)
}

/// Exec test for [`install_dir_ok`].
fn check_install_dir(s: &ProgramSpec, prog: &Vec<char>) -> (r: bool)
    ensures
        r == install_dir_ok(s@, prog@),
{
    let ghost dirs = s@.allowed_install_dirs;
    if s.allowed_install_dirs.len() == 0 {
        return true;
    }
    if prog.len() == 0 {
        return true;
    }
    if prog[0] != '/' {
        return true;
    }
    let dn = dirname_chars(prog);
    let mut k: usize = 0;
    while k < s.allowed_install_dirs.len()
        invariant
            dirs == s@.allowed_install_dirs,
            dirs.len() == s.allowed_install_dirs@.len(),
            forall|q: int| 0 <= q < dirs.len() ==> dirs[q] == #[trigger] s.allowed_install_dirs@[q]@,
            dn@ == spec_dirname(prog@),
            k <= dirs.len(),
            forall|q: int| 0 <= q < k ==> #[trigger] dirs[q] != spec_dirname(prog@),
        decreases dirs.len() - k,
    {
        if chars_eq_str(&dn, s.allowed_install_dirs[k].as_str()) {
            return true;
        }
        k = k + 1;
    }
    proof {
        assert(!install_dir_ok(s@, prog@)) by {
            if exists|q: int|
                0 <= q < dirs.len() && #[trigger] dirs[q] == spec_dirname(prog@) {
                let q = choose|q: int|
                    0 <= q < dirs.len() && #[trigger] dirs[q] == spec_dirname(prog@);
            }
        }
    }
    false
}

/// Exec test for [`spec_matches_cmd`], over tokens already split to chars.
pub fn check_spec_matches(s: &ProgramSpec, toks: &Vec<Vec<char>>, facts: &Vec<TokenFacts>) -> (r:
    bool)
    requires
        facts@.len() == toks@.len(),
    ensures
        r == spec_matches_cmd(s@, toks.deep_view(), facts@),
{
    let ghost tv = toks.deep_view();
    proof {
        assert(tv.len() == toks@.len());
        assert(forall|q: int| 0 <= q < tv.len() ==> tv[q] == #[trigger] toks@[q]@);
    }
    if toks.len() == 0 {
        return false;
    }
    if !check_install_dir(s, &toks[0]) {
        return false;
    }
    let forbidden = match &s.decision {
        Decision::Forbidden(_) => true,
        _ => false,
    };
    if forbidden {
        return true;
    }
    let n = s.options.len();
    let mut seen: Vec<bool> = Vec::new();
    let mut q: usize = 0;
    while q < n
        invariant
            q <= n,
            seen@.len() == q,
            forall|z: int| 0 <= z < q ==> seen@[z] == false,
        decreases n - q,
    {
        seen.push(false);
        q = q + 1;
    }
    proof {
        assert(seen@ =~= seen_init(s@.options.len()));
    }
    match match_options_exec(
        &s.options,
        s.option_bundling,
        s.combined_format,
        toks,
        facts,
        1,
        seen,
    ) {
        Some(p) => {
            let (i, seen2) = p;
            if !check_required(&s.options, &seen2) {
                return false;
            }
            match_positionals_exec(&s.positional_args, toks, facts, i, 0)
        },
        None => false,
    }
}

/// Exec test for [`self_test_matches`], over plain string tokens.
pub fn check_self_test(s: &ProgramSpec, cmd: &Vec<String>, facts: &Vec<TokenFacts>) -> (r: bool)
    requires
        facts@.len() == cmd@.len(),
    ensures
        r == self_test_matches(s@, cmd.deep_view(), facts@),
{
    let toks = command_chars(cmd);
    if toks.len() == 0 {
        return false;
    }
    let base = basename_chars(&toks[0]);
    proof {
        crate::text::lemma_chars_deep_view(&toks);
        assert(toks@[0]@ == cmd.deep_view()[0]);
    }
    if !chars_eq_str(&base, s.program.as_str()) {
        return false;
    }
    check_spec_matches(s, &toks, facts)
}

/// Splits each token of a command into its characters.
pub fn command_chars(cmd: &Vec<String>) -> (r: Vec<Vec<char>>)
    ensures
        r.deep_view() == cmd.deep_view(),
        r@.len() == cmd@.len(),
{
    let mut r: Vec<Vec<char>> = Vec::new();
    let mut i: usize = 0;
    while i < cmd.len()
        invariant
            i <= cmd@.len(),
            r@.len() == i,
            forall|q: int| 0 <= q < i ==> r@[q]@ == #[trigger] cmd@[q]@,
        decreases cmd@.len() - i,
    {
        r.push(str_to_chars(cmd[i].as_str()));
        i = i + 1;
    }
    proof {
        crate::text::lemma_chars_deep_view(&r);
        assert(r.deep_view() =~= cmd.deep_view());
    }
    r
}

/// First forbidden substring (at or after `i`) contained in the joined
/// command text, or `-1`.
pub open spec fn first_substring_hit_from(subs: Seq<Seq<char>>, joined: Seq<char>, i: int) -> int
    decreases subs.len() - i,
{
    if i < 0 || i >= subs.len() {
        -1
    } else if contains_sub(joined, subs[i]) {
        i
    } else {
        first_substring_hit_from(subs, joined, i + 1)
    }
}

/// First forbidden-program rule (at or after `i`) whose pattern is a valid
/// regular expression matching the basename, or `-1`.
pub open spec fn first_regex_hit_from(rules: Seq<RegexRuleV>, base: Seq<char>, i: int) -> int
    decreases rules.len() - i,
{
    if i < 0 || i >= rules.len() {
        -1
    } else if crate::outside::regex_valid(rules[i].pattern) && crate::outside::regex_match(
        rules[i].pattern,
        base,
    ) {
        i
    } else {
        first_regex_hit_from(rules, base, i + 1)
    }
}

/// First registered spec (at or after `i`) for the command's basename that
/// structurally matches, or `-1`.
pub open spec fn first_spec_hit_from(
    progs: Seq<ProgramSpecV>,
    cmd: Seq<Seq<char>>,
    facts: Seq<TokenFacts>,
    base: Seq<char>,
    i: int,
) -> int
    decreases progs.len() - i,
{
    if i < 0 || i >= progs.len() {
        -1
    } else if progs[i].program == base && spec_matches_cmd(progs[i], cmd, facts) {
        i
    } else {
        first_spec_hit_from(progs, cmd, facts, base, i + 1)
    }
}

/// What checking one command against the policy yields, given the command's
/// filesystem facts: a forbidden substring in the joined text wins, then a
/// forbidden program-name pattern, then the first structurally matching
/// spec's decision; with none of those the policy has no opinion.
pub open spec fn check_model(p: PolicyV, cmd: Seq<Seq<char>>, facts: Seq<TokenFacts>) -> EvaluationV {
    if cmd.len() == 0 {
        EvaluationV::NoMatch
    } else {
        let sh = first_substring_hit_from(p.forbidden_substrings, join_tokens(cmd), 0);
        if sh >= 0 {
            EvaluationV::Match(DecisionV::Forbidden(p.forbidden_substrings[sh]))
        } else {
            let base = spec_basename(cmd[0]);
            let rh = first_regex_hit_from(p.forbidden_program_regexes, base, 0);
            if rh >= 0 {
                EvaluationV::Match(DecisionV::Forbidden(p.forbidden_program_regexes[rh].reason))
            } else {
                let ph = first_spec_hit_from(p.programs, cmd, facts, base, 0);
                if ph >= 0 {
                    EvaluationV::Match(p.programs[ph].decision)
                } else {
                    EvaluationV::NoMatch
                }
            }
        }
    }
}

/// Takes the filesystem facts for one token: whether it names something
/// readable (it exists on disk), and whether it may be written (it exists,
/// or its directory part does — an empty directory part means the current
/// directory, which is taken as present).
fn path_facts(t: &Vec<char>) -> (bool, bool) {
    let s = chars_to_string(t);
    let exists = crate::outside::path_exists(s.as_str());
    let writable = if exists {
        true
    } else {
        let dn = dirname_chars(t);
        if dn.len() == 0 {
            true
        } else {
            let ds = chars_to_string(&dn);
            crate::outside::path_exists(ds.as_str())
        }
    };
    (exists, writable)
}

/// Probes the filesystem once for every token of a command, including the
/// part after a token's first `=` (for `--name=value` options). The answers
/// depend on the machine's disk, so only their shape is promised.
pub fn gather_facts(cmd: &Vec<String>) -> (r: Vec<TokenFacts>)
    ensures
        r@.len() == cmd@.len(),
{
    let mut r: Vec<TokenFacts> = Vec::new();
    let mut i: usize = 0;
    while i < cmd.len()
        invariant
            i <= cmd@.len(),
            r@.len() == i,
        decreases cmd@.len() - i,
    {
        let t = str_to_chars(cmd[i].as_str());
        let (readable, writable) = path_facts(&t);
        let (value_readable, value_writable) = match find_char(&t, '=') {
            Some(e) => {
                let n = t.len();
                let value = chars_subrange(&t, e + 1, n);
                path_facts(&value)
            },
            None => (false, false),
        };
        r.push(TokenFacts { readable, writable, value_readable, value_writable });
        i = i + 1;
    }
    r
}

/// Copies a decision.
fn clone_decision(d: &Decision) -> (r: Decision)
    ensures
        r@ == d@,
{
    match d {
        Decision::Allow => Decision::Allow,
        Decision::Prompt(s) => Decision::Prompt(s.clone()),
        Decision::Forbidden(s) => Decision::Forbidden(s.clone()),
    }
}

/// Copies an evaluation.
fn clone_evaluation(e: &Evaluation) -> (r: Evaluation)
    ensures
        r@ == e@,
{
    match e {
        Evaluation::Match(d) => Evaluation::Match(clone_decision(d)),
        Evaluation::NoMatch => Evaluation::NoMatch,
    }
}

impl Policy {
    /// Checks one command against the policy, with the filesystem facts
    /// handed in: a pure function of its three arguments, verified against
    /// [`check_model`] for every value of the facts.
    pub fn check_with_facts(&self, cmd: &Vec<String>, facts: &Vec<TokenFacts>) -> (r: Evaluation)
        requires
            facts@.len() == cmd@.len(),
        ensures
            r@ == check_model(self@, cmd.deep_view(), facts@),
    {
        let ghost pv = self@;
        let ghost cv = cmd.deep_view();
        if cmd.len() == 0 {
            return Evaluation::NoMatch;
        }
        let toks = command_chars(cmd);
        proof {
            crate::text::lemma_chars_deep_view(&toks);
        }
        let joined = crate::text::join_command(cmd);
        let mut si: usize = 0;
        while si < self.forbidden_substrings.len()
            invariant
                pv == self@,
                cv == cmd.deep_view(),
                cv.len() >= 1,
                joined@ == join_tokens(cv),
                si <= self.forbidden_substrings@.len(),
                pv.forbidden_substrings.len() == self.forbidden_substrings@.len(),
                forall|q: int|
                    0 <= q < pv.forbidden_substrings.len() ==> pv.forbidden_substrings[q]
                        == #[trigger] self.forbidden_substrings@[q]@,
                first_substring_hit_from(pv.forbidden_substrings, join_tokens(cv), 0)
                    == first_substring_hit_from(pv.forbidden_substrings, join_tokens(cv), si as int),
            decreases self.forbidden_substrings@.len() - si,
        {
            let sub = str_to_chars(self.forbidden_substrings[si].as_str());
            if contains_substr(&joined, &sub) {
                proof {
                    assert(pv.forbidden_substrings[si as int]
                        == self.forbidden_substrings@[si as int]@);
                    assert(first_substring_hit_from(
                        pv.forbidden_substrings,
                        join_tokens(cv),
                        si as int,
                    ) == si as int);
                }
                return Evaluation::Match(
                    Decision::Forbidden(self.forbidden_substrings[si].clone()),
                );
            }
            si = si + 1;
        }
        let base = basename_chars(&toks[0]);
        let base_str = chars_to_string(&base);
        proof {
            assert(base@ == spec_basename(cv[0]));
        }
        let mut ri: usize = 0;
        while ri < self.forbidden_program_regexes.len()
            invariant
                pv == self@,
                cv == cmd.deep_view(),
                cv.len() >= 1,
                base_str@ == spec_basename(cv[0]),
                first_substring_hit_from(pv.forbidden_substrings, join_tokens(cv), 0) == -1,
                ri <= self.forbidden_program_regexes@.len(),
                pv.forbidden_program_regexes.len() == self.forbidden_program_regexes@.len(),
                forall|q: int|
                    0 <= q < pv.forbidden_program_regexes.len() ==> pv.forbidden_program_regexes[q]
                        == #[trigger] self.forbidden_program_regexes@[q]@,
                first_regex_hit_from(pv.forbidden_program_regexes, spec_basename(cv[0]), 0)
                    == first_regex_hit_from(
                    pv.forbidden_program_regexes,
                    spec_basename(cv[0]),
                    ri as int,
                ),
            decreases self.forbidden_program_regexes@.len() - ri,
        {
            let hit = crate::outside::regex_match_text(
                self.forbidden_program_regexes[ri].pattern.as_str(),
                base_str.as_str(),
            );
            match hit {
                Some(true) => {
                    proof {
                        assert(pv.forbidden_program_regexes[ri as int]
                            == self.forbidden_program_regexes@[ri as int]@);
                        assert(first_regex_hit_from(
                            pv.forbidden_program_regexes,
                            spec_basename(cv[0]),
                            ri as int,
                        ) == ri as int);
                    }
                    return Evaluation::Match(
                        Decision::Forbidden(self.forbidden_program_regexes[ri].reason.clone()),
                    );
                },
                _ => {
                    proof {
                        assert(pv.forbidden_program_regexes[ri as int]
                            == self.forbidden_program_regexes@[ri as int]@);
                    }
                },
            }
            ri = ri + 1;
        }
        let mut pi: usize = 0;
        while pi < self.programs.len()
            invariant
                pv == self@,
                cv == cmd.deep_view(),
                cv.len() >= 1,
                facts@.len() == cv.len(),
                base@ == spec_basename(cv[0]),
                toks.deep_view() == cv,
                toks@.len() == cv.len(),
                first_substring_hit_from(pv.forbidden_substrings, join_tokens(cv), 0) == -1,
                first_regex_hit_from(pv.forbidden_program_regexes, spec_basename(cv[0]), 0) == -1,
                pi <= self.programs@.len(),
                pv.programs.len() == self.programs@.len(),
                forall|q: int|
                    0 <= q < pv.programs.len() ==> pv.programs[q] == #[trigger] self.programs@[q]@,
                first_spec_hit_from(pv.programs, cv, facts@, spec_basename(cv[0]), 0)
                    == first_spec_hit_from(pv.programs, cv, facts@, spec_basename(cv[0]), pi as int),
            decreases self.programs@.len() - pi,
        {
            proof {
                assert(pv.programs[pi as int] == self.programs@[pi as int]@);
            }
            let name_hit = chars_eq_str(&base, self.programs[pi].program.as_str());
            if name_hit {
                if check_spec_matches(&self.programs[pi], &toks, facts) {
                    proof {
                        assert(first_spec_hit_from(
                            pv.programs,
                            cv,
                            facts@,
                            spec_basename(cv[0]),
                            pi as int,
                        ) == pi as int);
                    }
                    return Evaluation::Match(clone_decision(&self.programs[pi].decision));
                }
            }
            pi = pi + 1;
        }
        Evaluation::NoMatch
    }

    /// Checks one command, probing the filesystem for the facts: the result
    /// is [`check_model`] under the facts the disk gave at this moment.
    pub fn check(&self, cmd: &Vec<String>) -> (r: Evaluation)
        ensures
            exists|facts: Seq<TokenFacts>|
                facts.len() == cmd@.len() && r@ == check_model(self@, cmd.deep_view(), facts),
    {
        let facts = gather_facts(cmd);
        let r = self.check_with_facts(cmd, &facts);
        proof {
            assert(facts@.len() == cmd@.len() && r@ == check_model(self@, cmd.deep_view(), facts@));
        }
        r
    }
}

/// How grave an evaluation is: `Forbidden` over `Prompt` over `Allow` over
/// `NoMatch`.
pub open spec fn severity(e: EvaluationV) -> int {
    match e {
        EvaluationV::NoMatch => 0,
        EvaluationV::Match(DecisionV::Allow) => 1,
        EvaluationV::Match(DecisionV::Prompt(_)) => 2,
        EvaluationV::Match(DecisionV::Forbidden(_)) => 3,
    }
}

/// The graver of two evaluations; the earlier wins a tie.
pub open spec fn combine2(a: EvaluationV, b: EvaluationV) -> EvaluationV {
    if severity(b) > severity(a) {
        b
    } else {
        a
    }
}

/// The severity-maximum of a sequence of evaluations: a compound invocation
/// is only as safe as its most dangerous clause.
pub open spec fn combine_model(evals: Seq<EvaluationV>) -> EvaluationV
    decreases evals.len(),
{
    if evals.len() == 0 {
        EvaluationV::NoMatch
    } else {
        combine2(combine_model(evals.drop_last()), evals.last())
    }
}

/// Exec severity of an evaluation.
fn severity_exec(e: &Evaluation) -> (r: u32)
    ensures
        r as int == severity(e@),
{
    match e {
        Evaluation::NoMatch => 0,
        Evaluation::Match(Decision::Allow) => 1,
        Evaluation::Match(Decision::Prompt(_)) => 2,
        Evaluation::Match(Decision::Forbidden(_)) => 3,
    }
}

/// Combines several inner commands' evaluations by maximum severity.
pub fn combine_evaluations(evals: &Vec<Evaluation>) -> (r: Evaluation)
    ensures
        r@ == combine_model(evals@.map_values(|e: Evaluation| e@)),
{
    let ghost ev = evals@.map_values(|e: Evaluation| e@);
    let mut acc = Evaluation::NoMatch;
    let mut i: usize = 0;
    proof {
        assert(ev.take(0) =~= Seq::<EvaluationV>::empty());
    }
    while i < evals.len()
        invariant
            ev == evals@.map_values(|e: Evaluation| e@),
            ev.len() == evals@.len(),
            i <= evals@.len(),
            acc@ == combine_model(ev.take(i as int)),
        decreases evals@.len() - i,
    {
        proof {
            assert(ev[i as int] == evals@[i as int]@);
            let cur = ev.take((i + 1) as int);
            assert(cur.drop_last() =~= ev.take(i as int));
            assert(cur.last() == ev[i as int]);
        }
        let sa = severity_exec(&acc);
        let sb = severity_exec(&evals[i]);
        if sb > sa {
            acc = clone_evaluation(&evals[i]);
        }
        i = i + 1;
    }
    proof {
        assert(ev.take(ev.len() as int) =~= ev);
    }
    acc
}

/// Checking several inner commands: each is checked on its own and the
/// verdicts are combined by maximum severity; `NoMatch` results only when
/// every inner command was `NoMatch`.
pub open spec fn check_multiple_model(
    p: PolicyV,
    cmds: Seq<Seq<Seq<char>>>,
    facts: Seq<Seq<TokenFacts>>,
) -> EvaluationV {
    combine_model(Seq::new(cmds.len(), |i: int| check_model(p, cmds[i], facts[i])))
}

impl Policy {
    /// Checks several inner commands with their facts handed in.
    pub fn check_multiple_with_facts(
        &self,
        cmds: &Vec<Vec<String>>,
        facts: &Vec<Vec<TokenFacts>>,
    ) -> (r: Evaluation)
        requires
            facts@.len() == cmds@.len(),
            forall|i: int| 0 <= i < cmds@.len() ==> (#[trigger] facts@[i])@.len() == cmds@[i]@.len(),
        ensures
            r@ == check_multiple_model(
                self@,
                cmds.deep_view(),
                facts@.map_values(|f: Vec<TokenFacts>| f@),
            ),
    {
        let ghost pv = self@;
        let ghost cmdsv = cmds.deep_view();
        let ghost factsv = facts@.map_values(|f: Vec<TokenFacts>| f@);
        let mut evals: Vec<Evaluation> = Vec::new();
        let mut i: usize = 0;
        while i < cmds.len()
            invariant
                pv == self@,
                cmdsv == cmds.deep_view(),
                factsv == facts@.map_values(|f: Vec<TokenFacts>| f@),
                cmdsv.len() == cmds@.len(),
                factsv.len() == cmds@.len(),
                facts@.len() == cmds@.len(),
                forall|q: int|
                    0 <= q < cmds@.len() ==> (#[trigger] facts@[q])@.len() == cmds@[q]@.len(),
                i <= cmds@.len(),
                evals@.len() == i,
                forall|q: int|
                    0 <= q < i ==> (#[trigger] evals@[q])@ == check_model(pv, cmdsv[q], factsv[q]),
            decreases cmds@.len() - i,
        {
            proof {
                assert(cmdsv[i as int] == cmds@[i as int].deep_view());
                assert(factsv[i as int] == facts@[i as int]@);
            }
            let e = self.check_with_facts(&cmds[i], &facts[i]);
            evals.push(e);
            i = i + 1;
        }
        let r = combine_evaluations(&evals);
        proof {
            assert(evals@.map_values(|e: Evaluation| e@) =~= Seq::new(
                cmdsv.len(),
                |q: int| check_model(pv, cmdsv[q], factsv[q]),
            ));
        }
        r
    }

    /// Checks several inner commands, probing the filesystem for each.
    pub fn check_multiple(&self, cmds: &Vec<Vec<String>>) -> (r: Evaluation)
        ensures
            exists|facts: Seq<Seq<TokenFacts>>|
                facts.len() == cmds@.len() && r@ == check_multiple_model(
                    self@,
                    cmds.deep_view(),
                    facts,
                ),
    {
        let mut facts: Vec<Vec<TokenFacts>> = Vec::new();
        let mut i: usize = 0;
        while i < cmds.len()
            invariant
                i <= cmds@.len(),
                facts@.len() == i,
                forall|q: int| 0 <= q < i ==> (#[trigger] facts@[q])@.len() == cmds@[q]@.len(),
            decreases cmds@.len() - i,
        {
            facts.push(gather_facts(&cmds[i]));
            i = i + 1;
        }
        let r = self.check_multiple_with_facts(cmds, &facts);
        proof {
            let fv = facts@.map_values(|f: Vec<TokenFacts>| f@);
            assert(fv.len() == cmds@.len() && r@ == check_multiple_model(
                self@,
                cmds.deep_view(),
                fv,
            ));
        }
        r
    }
}

} // verus!
