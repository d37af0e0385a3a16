//! Character-level utilities shared by the policy compiler, the matcher and
//! the shell decomposer: conversions between `str` and `Vec<char>`, substring
//! search, joining tokens, and path basename / dirname.

use vstd::prelude::*;
use vstd::string::*;
use crate::outside::push_char;

verus! {

/// Collects the characters of a string slice into a vector.
pub fn str_to_chars(s: &str) -> (r: Vec<char>)
    ensures
        r@ == s@,
{
    let n = s.unicode_len();
    let mut r: Vec<char> = Vec::new();
    let mut i: usize = 0;
    while i < n
        invariant
            n == s@.len(),
            i <= n,
            r@ == s@.take(i as int),
        decreases n - i,
    {
        let c = s.get_char(i);
        r.push(c);
        proof {
            assert(s@.take((i + 1) as int) =~= s@.take(i as int).push(s@[i as int]));
        }
        i = i + 1;
    }
    proof {
        assert(s@.take(n as int) =~= s@);
    }
    r
}

/// Builds a `String` holding exactly the given characters.
pub fn chars_to_string(v: &Vec<char>) -> (r: String)
    ensures
        r@ == v@,
{
    let mut r = String::new();
    let mut i: usize = 0;
    while i < v.len()
        invariant
            i <= v.len(),
            r@ == v@.take(i as int),
        decreases v.len() - i,
    {
        push_char(&mut r, v[i]);
        proof {
            assert(v@.take((i + 1) as int) =~= v@.take(i as int).push(v@[i as int]));
        }
        i = i + 1;
    }
    proof {
        assert(v@.take(v@.len() as int) =~= v@);
    }
    r
}

/// Compares two character vectors for equality of their contents.
pub fn chars_eq(a: &Vec<char>, b: &Vec<char>) -> (r: bool)
    ensures
        r == (a@ == b@),
{
    if a.len() != b.len() {
        proof {
            assert(!(a@ == b@)) by {
                if a@ == b@ {
                    assert(a@.len() == b@.len());
                }
            }
        }
        return false;
    }
    let mut i: usize = 0;
    while i < a.len()
        invariant
            a@.len() == b@.len(),
            i <= a.len(),
            forall|j: int| 0 <= j < i ==> a@[j] == b@[j],
        decreases a.len() - i,
    {
        if a[i] != b[i] {
            proof {
                assert(!(a@ == b@)) by {
                    if a@ == b@ {
                        assert(a@[i as int] == b@[i as int]);
                    }
                }
            }
            return false;
        }
        i = i + 1;
    }
    proof {
        assert(a@ =~= b@);
    }
    true
}

/// Compares a character vector against a string slice.
pub fn chars_eq_str(a: &Vec<char>, s: &str) -> (r: bool)
    ensures
        r == (a@ == s@),
{
    let b = str_to_chars(s);
    chars_eq(a, &b)
}

/// Copies the characters of `v` in positions `from..to`.
pub fn chars_subrange(v: &Vec<char>, from: usize, to: usize) -> (r: Vec<char>)
    requires
        from <= to <= v@.len(),
    ensures
        r@ == v@.subrange(from as int, to as int),
{
    let mut r: Vec<char> = Vec::new();
    let mut i: usize = from;
    while i < to
        invariant
            from <= i <= to <= v@.len(),
            r@ == v@.subrange(from as int, i as int),
        decreases to - i,
    {
        r.push(v[i]);
        proof {
            assert(v@.subrange(from as int, (i + 1) as int) =~= v@.subrange(
                from as int,
                i as int,
            ).push(v@[i as int]));
        }
        i = i + 1;
    }
    r
}

/// The needle occurs in the haystack starting at position `k`.
pub open spec fn contains_at(hay: Seq<char>, needle: Seq<char>, k: int) -> bool {
    &&& 0 <= k
    &&& k + needle.len() <= hay.len()
    &&& hay.subrange(k, k + needle.len() as int) == needle
}

/// The needle occurs somewhere in the haystack.
pub open spec fn contains_sub(hay: Seq<char>, needle: Seq<char>) -> bool {
    exists|k: int| contains_at(hay, needle, k)
}

/// Substring search: does `needle` occur anywhere in `hay`?
pub fn contains_substr(hay: &Vec<char>, needle: &Vec<char>) -> (r: bool)
    ensures
        r == contains_sub(hay@, needle@),
{
    let n = needle.len();
    let h = hay.len();
    if n == 0 {
        proof {
            assert(hay@.subrange(0, 0) =~= needle@);
            assert(contains_at(hay@, needle@, 0));
        }
        return true;
    }
    if n > h {
        proof {
            assert(!contains_sub(hay@, needle@)) by {
                if contains_sub(hay@, needle@) {
                    let k = choose|k: int| contains_at(hay@, needle@, k);
                }
            }
        }
        return false;
    }
    let mut k: usize = 0;
    while k <= h - n
        invariant
            n == needle@.len(),
            h == hay@.len(),
            1 <= n <= h,
            k <= h - n + 1,
            forall|kk: int| 0 <= kk < k ==> !contains_at(hay@, needle@, kk),
        decreases h - n - k + 1,
    {
        let mut j: usize = 0;
        let mut hit = true;
        while j < n
            invariant
                n == needle@.len(),
                h == hay@.len(),
                k + n <= h,
                j <= n,
                hit ==> forall|jj: int| 0 <= jj < j ==> hay@[k + jj] == needle@[jj],
                !hit ==> !contains_at(hay@, needle@, k as int),
            decreases n - j,
        {
            if hit && hay[k + j] != needle[j] {
                proof {
                    assert(!contains_at(hay@, needle@, k as int)) by {
                        if contains_at(hay@, needle@, k as int) {
                            assert(hay@.subrange(k as int, k + n as int)[j as int]
                                == needle@[j as int]);
                        }
                    }
                }
                hit = false;
            }
            j = j + 1;
        }
        if hit {
            proof {
                assert(hay@.subrange(k as int, k + n as int) =~= needle@);
                assert(contains_at(hay@, needle@, k as int));
            }
            return true;
        }
        k = k + 1;
    }
    proof {
        assert(!contains_sub(hay@, needle@)) by {
            if contains_sub(hay@, needle@) {
                let kk = choose|kk: int| contains_at(hay@, needle@, kk);
                assert(kk + n <= h);
                assert(kk < k);
            }
        }
    }
    false
}

/// All the command's tokens joined by single spaces.
pub open spec fn join_tokens(cmd: Seq<Seq<char>>) -> Seq<char>
    decreases cmd.len(),
{
    if cmd.len() == 0 {
        Seq::empty()
    } else if cmd.len() == 1 {
        cmd[0]
    } else {
        join_tokens(cmd.drop_last()) + seq![' '] + cmd.last()
    }
}

/// Joins the command's tokens with single spaces, as one character vector.
pub fn join_command(cmd: &Vec<String>) -> (r: Vec<char>)
    ensures
        r@ == join_tokens(cmd.deep_view()),
{
    let ghost dv = cmd.deep_view();
    let mut r: Vec<char> = Vec::new();
    let mut i: usize = 0;
    proof {
        assert(dv.take(0) =~= Seq::<Seq<char>>::empty());
    }
    while i < cmd.len()
        invariant
            dv == cmd.deep_view(),
            dv.len() == cmd@.len(),
            forall|j: int| 0 <= j < dv.len() ==> dv[j] == #[trigger] cmd@[j]@,
            i <= cmd.len(),
            r@ == join_tokens(dv.take(i as int)),
        decreases cmd.len() - i,
    {
        if i > 0 {
            r.push(' ');
        }
        let mut t = str_to_chars(cmd[i].as_str());
        r.append(&mut t);
        proof {
            let pre = dv.take(i as int);
            let cur = dv.take((i + 1) as int);
            assert(cur.drop_last() =~= pre);
            assert(cur.last() == dv[i as int]);
            if i == 0 {
                assert(join_tokens(cur) == dv[0]);
            } else {
                assert(join_tokens(cur) == join_tokens(pre) + seq![' '] + dv[i as int]);
            }
        }
        i = i + 1;
    }
    proof {
        assert(dv.take(dv.len() as int) =~= dv);
    }
    r
}

/// Indexing the deep view of a vector of character vectors gives the inner
/// vectors' own views.
pub proof fn lemma_chars_deep_view(v: &Vec<Vec<char>>)
    ensures
        v.deep_view().len() == v@.len(),
        forall|q: int| 0 <= q < v@.len() ==> #[trigger] v.deep_view()[q] == v@[q]@,
{
    assert forall|q: int| 0 <= q < v@.len() implies #[trigger] v.deep_view()[q] == v@[q]@ by {
        assert(v@[q].deep_view() =~= v@[q]@);
    }
}

/// Position of the last `/` strictly before `i`, or `-1` when there is none.
pub open spec fn last_slash_upto(s: Seq<char>, i: int) -> int
    decreases i,
{
    if i <= 0 {
        -1
    } else if s[i - 1] == '/' {
        i - 1
    } else {
        last_slash_upto(s, i - 1)
    }
}

/// The token's final path component.
pub open spec fn spec_basename(s: Seq<char>) -> Seq<char> {
    s.skip(last_slash_upto(s, s.len() as int) + 1)
}

/// The directory part of a path: empty when the token has no `/`.
pub open spec fn spec_dirname(s: Seq<char>) -> Seq<char> {
    let k = last_slash_upto(s, s.len() as int);
    if k < 0 {
        Seq::empty()
    } else if k == 0 {
        seq!['/']
    } else {
        s.take(k)
    }
}

/// Position of the last `/` in `v`, or none.
fn find_last_slash(v: &Vec<char>) -> (r: Option<usize>)
    ensures
        match r {
            Some(k) => k < v@.len() && last_slash_upto(v@, v@.len() as int) == k as int,
            None => last_slash_upto(v@, v@.len() as int) == -1,
        },
{
    let mut i: usize = v.len();
    while i > 0
        invariant
            i <= v@.len(),
            last_slash_upto(v@, v@.len() as int) == last_slash_upto(v@, i as int),
        decreases i,
    {
        if v[i - 1] == '/' {
            return Some(i - 1);
        }
        i = i - 1;
    }
    None
}

/// The final path component of the token.
pub fn basename_chars(v: &Vec<char>) -> (r: Vec<char>)
    ensures
        r@ == spec_basename(v@),
{
    match find_last_slash(v) {
        Some(k) => {
            let n = v.len();
            chars_subrange(v, k + 1, n)
        },
        None => chars_subrange(v, 0, v.len()),
    }
}

/// The directory part of the token.
pub fn dirname_chars(v: &Vec<char>) -> (r: Vec<char>)
    ensures
        r@ == spec_dirname(v@),
{
    match find_last_slash(v) {
        Some(k) => {
            if k == 0 {
                let mut r: Vec<char> = Vec::new();
                r.push('/');
                proof {
                    assert(r@ =~= seq!['/']);
                }
                r
            } else {
                chars_subrange(v, 0, k)
            }
        },
        None => Vec::new(),
    }
}

} // verus!
