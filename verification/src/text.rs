//! Character-sequence scanning used by the header codec: locating a
//! delimiter, and taking the first or last space-delimited token of a
//! segment.

use vstd::prelude::*;
use vstd::slice::slice_subrange;
use vstd::slice::slice_to_vec;
use vstd::string::StrSliceExecFns;

verus! {

/// Index of the first occurrence of `d` in `s` at or after `i`, if any.
pub open spec fn first_index_from(s: Seq<char>, d: char, i: int) -> Option<int>
    decreases s.len() - i,
{
    if i < 0 || i >= s.len() {
        None
    } else if s[i] == d {
        Some(i)
    } else {
        first_index_from(s, d, i + 1)
    }
}

/// Longest suffix of `s` that contains no space.
pub open spec fn trailing_run(s: Seq<char>) -> Seq<char>
    decreases s.len(),
{
    if s.len() == 0 || s.last() == ' ' {
        Seq::empty()
    } else {
        trailing_run(s.drop_last()).push(s.last())
    }
}

/// Last space-delimited token of `s`: the last maximal run of non-space
/// characters, or `None` when `s` holds only spaces.
pub open spec fn last_token(s: Seq<char>) -> Option<Seq<char>>
    decreases s.len(),
{
    if s.len() == 0 {
        None
    } else if s.last() == ' ' {
        last_token(s.drop_last())
    } else {
        Some(trailing_run(s))
    }
}

/// Longest prefix of `s` that contains no space.
pub open spec fn leading_run(s: Seq<char>) -> Seq<char>
    decreases s.len(),
{
    if s.len() == 0 || s.first() == ' ' {
        Seq::empty()
    } else {
        seq![s.first()] + leading_run(s.drop_first())
    }
}

/// First space-delimited token of `s`: the first maximal run of non-space
/// characters, or `None` when `s` holds only spaces.
pub open spec fn first_token(s: Seq<char>) -> Option<Seq<char>>
    decreases s.len(),
{
    if s.len() == 0 {
        None
    } else if s.first() == ' ' {
        first_token(s.drop_first())
    } else {
        Some(leading_run(s))
    }
}

proof fn lemma_trailing_run_is_suffix(s: Seq<char>, b: int)
    requires
        0 <= b <= s.len(),
        forall|k: int| b <= k < s.len() ==> s[k] != ' ',
        b == 0 || s[b - 1] == ' ',
    ensures
        trailing_run(s) == s.subrange(b, s.len() as int),
    decreases s.len(),
{
    if b == s.len() {
        if s.len() > 0 {
            assert(s.last() == ' ');
        }
        assert(trailing_run(s) =~= s.subrange(b, s.len() as int));
    } else {
        assert(s.last() != ' ');
        let t = s.drop_last();
        lemma_trailing_run_is_suffix(t, b);
        assert(t.subrange(b, t.len() as int) =~= s.subrange(b, s.len() - 1));
        assert(trailing_run(s) =~= s.subrange(b, s.len() as int));
    }
}

proof fn lemma_leading_run_is_prefix(s: Seq<char>, e: int)
    requires
        0 <= e <= s.len(),
        forall|k: int| 0 <= k < e ==> s[k] != ' ',
        e == s.len() || s[e] == ' ',
    ensures
        leading_run(s) == s.subrange(0, e),
    decreases e,
{
    if e == 0 {
        assert(leading_run(s) =~= s.subrange(0, 0));
    } else {
        assert(s.first() != ' ');
        let t = s.drop_first();
        lemma_leading_run_is_prefix(t, e - 1);
        assert(t.subrange(0, e - 1) =~= s.subrange(1, e));
        assert(leading_run(s) =~= s.subrange(0, e));
    }
}

/// A last token is never empty: it holds at least its final character.
pub proof fn lemma_last_token_nonempty(s: Seq<char>)
    ensures
        last_token(s) matches Some(t) ==> t.len() > 0,
    decreases s.len(),
{
    if s.len() > 0 {
        if s.last() == ' ' {
            lemma_last_token_nonempty(s.drop_last());
        } else {
            assert(trailing_run(s).len() > 0);
        }
    }
}

/// A first token is never empty: it holds at least its first character.
pub proof fn lemma_first_token_nonempty(s: Seq<char>)
    ensures
        first_token(s) matches Some(t) ==> t.len() > 0,
    decreases s.len(),
{
    if s.len() > 0 {
        if s.first() == ' ' {
            lemma_first_token_nonempty(s.drop_first());
        } else {
            assert(leading_run(s).len() > 0);
        }
    }
}

/// Finds the first occurrence of `d` in `v` at or after `from`.
pub fn find_char(v: &Vec<char>, d: char, from: usize) -> (r: Option<usize>)
    ensures
        match r {
            Some(j) => {
                &&& first_index_from(v@, d, from as int) == Some(j as int)
                &&& from <= j < v@.len()
                &&& v@[j as int] == d
            },
            None => first_index_from(v@, d, from as int) is None,
        },
{
    let mut i: usize = from;
    loop
        invariant
            from <= i,
            first_index_from(v@, d, from as int) == first_index_from(v@, d, i as int),
        decreases v.len() - i,
    {
        if i >= v.len() {
            return None;
        }
        if v[i] == d {
            return Some(i);
        }
        assert(first_index_from(v@, d, i as int) == first_index_from(v@, d, i + 1));
        i = i + 1;
    }
}

/// Bounds of the last space-delimited token of `v`, as a half-open range.
pub fn last_token_range(v: &Vec<char>) -> (r: Option<(usize, usize)>)
    ensures
        match r {
            Some(be) => {
                &&& be.0 < be.1 <= v@.len()
                &&& last_token(v@) == Some(v@.subrange(be.0 as int, be.1 as int))
            },
            None => last_token(v@) is None,
        },
{
    proof {
        assert(v@.subrange(0, v@.len() as int) =~= v@);
    }
    let mut e: usize = v.len();
    while e > 0 && v[e - 1] == ' '
        invariant
            e <= v@.len(),
            last_token(v@) == last_token(v@.subrange(0, e as int)),
        decreases e,
    {
        proof {
            let t = v@.subrange(0, e as int);
            assert(t.drop_last() =~= v@.subrange(0, e - 1));
        }
        e = e - 1;
    }
    proof {
        assert(v@.subrange(0, v@.len() as int) =~= v@);
    }
    if e == 0 {
        return None;
    }
    let ghost whole = v@.subrange(0, e as int);
    assert(last_token(v@) == Some(trailing_run(whole)));
    let mut b: usize = e;
    while b > 0 && v[b - 1] != ' '
        invariant
            b <= e <= v@.len(),
            forall|k: int| b <= k < e ==> v@[k] != ' ',
        decreases b,
    {
        b = b - 1;
    }
    proof {
        lemma_trailing_run_is_suffix(whole, b as int);
        assert(whole.subrange(b as int, e as int) =~= v@.subrange(b as int, e as int));
    }
    Some((b, e))
}

/// Bounds of the first space-delimited token of `v`, as a half-open range.
pub fn first_token_range(v: &Vec<char>) -> (r: Option<(usize, usize)>)
    ensures
        match r {
            Some(be) => {
                &&& be.0 < be.1 <= v@.len()
                &&& first_token(v@) == Some(v@.subrange(be.0 as int, be.1 as int))
            },
            None => first_token(v@) is None,
        },
{
    let n = v.len();
    proof {
        assert(v@.subrange(0, v@.len() as int) =~= v@);
    }
    let mut b: usize = 0;
    while b < n && v[b] == ' '
        invariant
            b <= v@.len(),
            n == v@.len(),
            first_token(v@) == first_token(v@.subrange(b as int, v@.len() as int)),
        decreases n - b,
    {
        proof {
            let t = v@.subrange(b as int, v@.len() as int);
            assert(t.drop_first() =~= v@.subrange(b + 1, v@.len() as int));
        }
        b = b + 1;
    }
    proof {
        assert(v@.subrange(0, v@.len() as int) =~= v@);
    }
    if b == n {
        return None;
    }
    let ghost rest = v@.subrange(b as int, v@.len() as int);
    assert(first_token(v@) == Some(leading_run(rest)));
    let mut e: usize = b;
    while e < n && v[e] != ' '
        invariant
            b <= e <= n,
            n == v@.len(),
            forall|k: int| b <= k < e ==> v@[k] != ' ',
        decreases n - e,
    {
        e = e + 1;
    }
    proof {
        lemma_leading_run_is_prefix(rest, e - b);
        assert(rest.subrange(0, e - b) =~= v@.subrange(b as int, e as int));
    }
    Some((b, e))
}

/// Copy of the character range `[from, to)` of `v`.
pub fn subvec_chars(v: &Vec<char>, from: usize, to: usize) -> (r: Vec<char>)
    requires
        from <= to <= v@.len(),
    ensures
        r@ == v@.subrange(from as int, to as int),
{
    slice_to_vec(slice_subrange(v.as_slice(), from, to))
}

/// Characters of `s`, in order.
pub fn string_chars(s: &str) -> (v: Vec<char>)
    ensures
        v@ == s@,
{
    let n = s.unicode_len();
    let mut v: Vec<char> = Vec::new();
    let mut i: usize = 0;
    while i < n
        invariant
            i <= n,
            n == s@.len(),
            v@ == s@.subrange(0, i as int),
        decreases n - i,
    {
        v.push(s.get_char(i));
        proof {
            assert(v@ =~= s@.subrange(0, i + 1));
        }
        i = i + 1;
    }
    proof {
        assert(s@.subrange(0, s@.len() as int) =~= s@);
    }
    v
}

} // verus!
