//! The primitive predicates over a single token: option shape, positive
//! integers, the accepted `sed` edit-script subset, and the per-matcher
//! acceptance test given the token's filesystem facts.

use vstd::prelude::*;
use crate::policy::ArgMatcher;

verus! {

/// What the filesystem probes reported for one token, taken once before
/// matching: whether the token, read as a path, names something readable,
/// and whether it may be written. `value_*` are the same two answers for the
/// part of the token after its first `=`, used for `--name=value` options.
#[derive(Debug, Clone, Copy, PartialEq, Eq, Structural)]
pub struct TokenFacts {
    pub readable: bool,
    pub writable: bool,
    pub value_readable: bool,
    pub value_writable: bool,
}

/// A token shaped like an option: a dash followed by at least one character.
pub open spec fn is_option_token(t: Seq<char>) -> bool {
    t.len() >= 2 && t[0] == '-'
}

/// Exec test for [`is_option_token`].
pub fn check_option_token(t: &Vec<char>) -> (r: bool)
    ensures
        r == is_option_token(t@),
{
    t.len() >= 2 && t[0] == '-'
}

/// A decimal digit.
pub open spec fn is_digit(c: char) -> bool {
    '0' <= c && c <= '9'
}

/// A decimal integer greater than zero: all digits, at least one of them
/// nonzero.
pub open spec fn is_positive_integer(t: Seq<char>) -> bool {
    &&& t.len() >= 1
    &&& forall|i: int| 0 <= i < t.len() ==> is_digit(#[trigger] t[i])
    &&& exists|i: int| 0 <= i < t.len() && #[trigger] t[i] != '0'
}

/// Exec test for [`is_positive_integer`].
pub fn check_positive_integer(t: &Vec<char>) -> (r: bool)
    ensures
        r == is_positive_integer(t@),
{
    if t.len() == 0 {
        return false;
    }
    let mut i: usize = 0;
    let mut nonzero = false;
    while i < t.len()
        invariant
            i <= t@.len(),
            forall|j: int| 0 <= j < i ==> is_digit(#[trigger] t@[j]),
            nonzero == exists|j: int| 0 <= j < i && #[trigger] t@[j] != '0',
        decreases t@.len() - i,
    {
        let c = t[i];
        if c < '0' || c > '9' {
            return false;
        }
        if c != '0' {
            nonzero = true;
        }
        i = i + 1;
    }
    nonzero
}

/// Number of occurrences of `c` in `s`.
pub open spec fn count_char(s: Seq<char>, c: char) -> int
    decreases s.len(),
{
    if s.len() == 0 {
        0
    } else {
        count_char(s.drop_last(), c) + if s.last() == c {
            1int
        } else {
            0int
        }
    }
}

/// Position of the last occurrence of `c` strictly before `i`, or `-1`.
pub open spec fn last_pos_upto(s: Seq<char>, c: char, i: int) -> int
    decreases i,
{
    if i <= 0 {
        -1
    } else if s[i - 1] == c {
        i - 1
    } else {
        last_pos_upto(s, c, i - 1)
    }
}

/// A flag character accepted after a `sed` substitution: `g`, `p`, `i`, or a
/// digit.
pub open spec fn is_sed_flag(c: char) -> bool {
    c == 'g' || c == 'p' || c == 'i' || is_digit(c)
}

/// A `sed` address: a run of digits, or `$`.
pub open spec fn is_sed_address(t: Seq<char>) -> bool {
    ||| (t.len() >= 1 && forall|i: int| 0 <= i < t.len() ==> is_digit(#[trigger] t[i]))
    ||| t =~= seq!['$']
}

/// A substitution script `s<d>pattern<d>replacement<d>flags`: the delimiter
/// is the character after `s`, it occurs exactly twice more, and only flag
/// characters follow its last occurrence. The delimiter may not be a letter,
/// a digit or a backslash.
pub open spec fn is_sed_substitution(t: Seq<char>) -> bool {
    &&& t.len() >= 4
    &&& t[0] == 's'
    &&& !(('a' <= t[1] && t[1] <= 'z') || ('A' <= t[1] && t[1] <= 'Z') || is_digit(t[1]) || t[1]
        == '\\')
    &&& count_char(t.skip(2), t[1]) == 2
    &&& {
        let last = last_pos_upto(t, t[1], t.len() as int);
        forall|i: int| last < i < t.len() ==> is_sed_flag(#[trigger] t[i])
    }
}

/// A print or delete range `addr p`, `addr,addr p`, `addr d` (or bare `p` /
/// `d` applying to every line).
pub open spec fn is_sed_range(t: Seq<char>) -> bool {
    &&& t.len() >= 1
    &&& (t.last() == 'p' || t.last() == 'd')
    &&& {
        let body = t.drop_last();
        ||| body.len() == 0
        ||| is_sed_address(body)
        ||| exists|k: int|
            0 <= k < body.len() && body[k] == ',' && is_sed_address(#[trigger] body.take(k))
                && is_sed_address(body.skip(k + 1))
    }
}

/// The accepted `sed` edit-script subset: one substitution, or one print /
/// delete range.
pub open spec fn is_sed_script(t: Seq<char>) -> bool {
    is_sed_substitution(t) || is_sed_range(t)
}

/// Counts occurrences of `c` in `t`.
fn count_char_exec(t: &Vec<char>, c: char) -> (r: usize)
    ensures
        r as int == count_char(t@, c),
{
    let mut i: usize = 0;
    let mut n: usize = 0;
    while i < t.len()
        invariant
            i <= t@.len(),
            n <= i,
            n as int == count_char(t@.take(i as int), c),
        decreases t@.len() - i,
    {
        proof {
            let pre = t@.take(i as int);
            let cur = t@.take((i + 1) as int);
            assert(cur.drop_last() =~= pre);
            assert(cur.last() == t@[i as int]);
        }
        if t[i] == c {
            n = n + 1;
        }
        i = i + 1;
    }
    proof {
        assert(t@.take(t@.len() as int) =~= t@);
    }
    n
}

/// Position of the last occurrence of `c`, or none.
fn find_last_pos(t: &Vec<char>, c: char) -> (r: Option<usize>)
    ensures
        match r {
            Some(k) => k < t@.len() && last_pos_upto(t@, c, t@.len() as int) == k as int,
            None => last_pos_upto(t@, c, t@.len() as int) == -1,
        },
{
    let mut i: usize = t.len();
    while i > 0
        invariant
            i <= t@.len(),
            last_pos_upto(t@, c, t@.len() as int) == last_pos_upto(t@, c, i as int),
        decreases i,
    {
        if t[i - 1] == c {
            return Some(i - 1);
        }
        i = i - 1;
    }
    None
}

/// Exec test for [`is_sed_address`] on a subrange of `t`.
fn check_sed_address(t: &Vec<char>, from: usize, to: usize) -> (r: bool)
    requires
        from <= to <= t@.len(),
    ensures
        r == is_sed_address(t@.subrange(from as int, to as int)),
{
    let ghost body = t@.subrange(from as int, to as int);
    if to == from {
        proof {
            assert(!is_sed_address(body)) by {
                if body =~= seq!['$'] {
                    assert(body.len() == 1);
                }
            }
        }
        return false;
    }
    if to - from == 1 && t[from] == '$' {
        proof {
            assert(body =~= seq!['$']);
        }
        return true;
    }
    let mut i: usize = from;
    while i < to
        invariant
            from <= i <= to <= t@.len(),
            body == t@.subrange(from as int, to as int),
            !(to - from == 1 && t@[from as int] == '$'),
            forall|j: int| 0 <= j < i - from ==> is_digit(#[trigger] body[j]),
        decreases to - i,
    {
        let c = t[i];
        proof {
            assert(body[i - from] == t@[i as int]);
        }
        if c < '0' || c > '9' {
            proof {
                assert(!is_digit(body[i - from]));
                if body =~= seq!['$'] {
                    assert(seq!['$'].len() == 1);
                    assert(seq!['$'][0] == '$');
                    assert(body.len() == 1);
                    assert(i == from);
                    assert(t@[from as int] == body[0]);
                    assert(false);
                }
                assert(!is_sed_address(body));
            }
            return false;
        }
        i = i + 1;
    }
    true
}

/// Exec test for [`is_sed_script`].
pub fn check_sed_script(t: &Vec<char>) -> (r: bool)
    ensures
        r == is_sed_script(t@),
{
    if check_sed_substitution(t) {
        return true;
    }
    check_sed_range(t)
}

/// Exec test for [`is_sed_substitution`].
fn check_sed_substitution(t: &Vec<char>) -> (r: bool)
    ensures
        r == is_sed_substitution(t@),
{
    if t.len() < 4 {
        return false;
    }
    if t[0] != 's' {
        return false;
    }
    let d = t[1];
    if ('a' <= d && d <= 'z') || ('A' <= d && d <= 'Z') || ('0' <= d && d <= '9') || d == '\\' {
        return false;
    }
    let tail = crate::text::chars_subrange(t, 2, t.len());
    if count_char_exec(&tail, d) != 2 {
        proof {
            assert(tail@ == t@.skip(2));
        }
        return false;
    }
    proof {
        assert(tail@ == t@.skip(2));
    }
    let last = match find_last_pos(t, d) {
        Some(k) => k,
        None => {
            proof {
                assert(false) by {
                    lemma_count_last_pos(t@, d);
                }
            }
            0
        },
    };
    let mut i: usize = last + 1;
    while i < t.len()
        invariant
            last < t@.len(),
            last_pos_upto(t@, t@[1], t@.len() as int) == last as int,
            d == t@[1],
            last < i <= t@.len(),
            forall|j: int| last < j < i ==> is_sed_flag(#[trigger] t@[j]),
        decreases t@.len() - i,
    {
        let c = t[i];
        if !(c == 'g' || c == 'p' || c == 'i' || ('0' <= c && c <= '9')) {
            return false;
        }
        i = i + 1;
    }
    true
}

/// When a character occurs in `s` (its count is positive), the last-position
/// scan finds an occurrence.
proof fn lemma_count_last_pos(s: Seq<char>, c: char)
    requires
        count_char(s.skip(2), c) >= 1,
        s.len() >= 2,
    ensures
        last_pos_upto(s, c, s.len() as int) >= 0,
    decreases s.len(),
{
    if s.len() > 2 {
        if s.last() == c {
        } else {
            assert(s.skip(2).last() == s.last());
            assert(s.skip(2).drop_last() =~= s.drop_last().skip(2));
            lemma_count_last_pos(s.drop_last(), c);
            lemma_last_pos_extend(s, c);
        }
    } else {
        assert(s.skip(2).len() == 0);
    }
}

/// Extending a sequence by one non-`c` character keeps the last position.
proof fn lemma_last_pos_extend(s: Seq<char>, c: char)
    requires
        s.len() >= 1,
        s.last() != c,
    ensures
        last_pos_upto(s, c, s.len() as int) == last_pos_upto(
            s.drop_last(),
            c,
            s.len() as int - 1,
        ),
    decreases s.len(),
{
    lemma_last_pos_prefix(s, c, s.len() as int - 1);
}

/// `last_pos_upto` below `i` only looks at positions below `i`.
proof fn lemma_last_pos_prefix(s: Seq<char>, c: char, i: int)
    requires
        0 <= i <= s.drop_last().len(),
        s.len() >= 1,
    ensures
        last_pos_upto(s, c, i) == last_pos_upto(s.drop_last(), c, i),
    decreases i,
{
    if i > 0 {
        assert(s.drop_last()[i - 1] == s[i - 1]);
        lemma_last_pos_prefix(s, c, i - 1);
    }
}

/// Exec test for [`is_sed_range`].
fn check_sed_range(t: &Vec<char>) -> (r: bool)
    ensures
        r == is_sed_range(t@),
{
    if t.len() == 0 {
        return false;
    }
    let lastc = t[t.len() - 1];
    if !(lastc == 'p' || lastc == 'd') {
        return false;
    }
    let ghost body = t@.drop_last();
    let blen = t.len() - 1;
    proof {
        assert(body =~= t@.subrange(0, blen as int));
    }
    if blen == 0 {
        return true;
    }
    if check_sed_address_whole(t, blen) {
        return true;
    }
    let mut k: usize = 0;
    while k < blen
        invariant
            blen == body.len(),
            body == t@.drop_last(),
            blen < t@.len(),
            t@.len() >= 1,
            t@.last() == 'p' || t@.last() == 'd',
            k <= blen,
            forall|kk: int|
                0 <= kk < k ==> !(body[kk] == ',' && is_sed_address(#[trigger] body.take(kk))
                    && is_sed_address(body.skip(kk + 1))),
        decreases blen - k,
    {
        proof {
            assert(body[k as int] == t@[k as int]);
        }
        if t[k] == ',' {
            proof {
                assert(body.take(k as int) =~= t@.subrange(0, k as int));
                assert(body.skip(k as int + 1) =~= t@.subrange(k as int + 1, blen as int));
            }
            let a1 = check_sed_address(t, 0, k);
            let a2 = check_sed_address(t, k + 1, blen);
            if a1 && a2 {
                proof {
                    assert(is_sed_address(body.take(k as int)));
                    assert(is_sed_address(body.skip(k as int + 1)));
                    assert(body[k as int] == ',');
                    assert(is_sed_range(t@));
                }
                return true;
            }
        }
        k = k + 1;
    }
    false
}

/// Exec test for [`is_sed_address`] on all of `t` but its last character.
fn check_sed_address_whole(t: &Vec<char>, blen: usize) -> (r: bool)
    requires
        blen as int == t@.len() - 1,
    ensures
        r == is_sed_address(t@.drop_last()),
{
    proof {
        assert(t@.drop_last() =~= t@.subrange(0, blen as int));
    }
    check_sed_address(t, 0, blen)
}

/// Whether one matcher accepts one token, given the token's filesystem
/// facts. Variadic matchers accept no single token here: they are legal only
/// as a spec's trailing matcher, where the tail rule applies.
pub open spec fn matcher_accepts(
    m: ArgMatcher,
    tok: Seq<char>,
    readable: bool,
    writable: bool,
) -> bool {
    match m {
        ArgMatcher::OpaqueNonFile => true,
        ArgMatcher::ReadableFile => readable,
        ArgMatcher::WriteableFile => writable,
        ArgMatcher::PositiveInteger => is_positive_integer(tok),
        ArgMatcher::SedCommand => is_sed_script(tok),
        ArgMatcher::ReadableFiles => false,
        ArgMatcher::ReadableFilesOrCwd => false,
        ArgMatcher::UnverifiedVarargs => false,
    }
}

/// Exec test for [`matcher_accepts`].
pub fn check_matcher_accepts(m: ArgMatcher, tok: &Vec<char>, readable: bool, writable: bool) -> (r:
    bool)
    ensures
        r == matcher_accepts(m, tok@, readable, writable),
{
    match m {
        ArgMatcher::OpaqueNonFile => true,
        ArgMatcher::ReadableFile => readable,
        ArgMatcher::WriteableFile => writable,
        ArgMatcher::PositiveInteger => check_positive_integer(tok),
        ArgMatcher::SedCommand => check_sed_script(tok),
        ArgMatcher::ReadableFiles => false,
        ArgMatcher::ReadableFilesOrCwd => false,
        ArgMatcher::UnverifiedVarargs => false,
    }
}

} // verus!
