//! Character-level text helpers.
//!
//! The engine's substitution language and its JSON serializer and parser all
//! work on `Vec<char>`, converted once at each public boundary from and to
//! `String`.

use vstd::prelude::*;
use vstd::string::*;

verus! {

/// Relies on `String::push`: appends exactly one character at the end.
#[verifier::external_body]
pub(crate) fn push_char(s: &mut String, c: char)
    ensures
        final(s)@ == old(s)@.push(c),
{
    s.push(c)
}

/// The characters of `s`, in order.
pub fn str_to_chars(s: &str) -> (r: Vec<char>)
    ensures
        r@ == s@,
{
    let n = s.unicode_len();
    let mut r: Vec<char> = Vec::new();
    let mut i: usize = 0;
    while i < n
        invariant
            i <= n,
            n == s@.len(),
            r@ == s@.subrange(0, i as int),
        decreases n - i,
    {
        r.push(s.get_char(i));
        assert(r@ =~= s@.subrange(0, i + 1 as int));
        i = i + 1;
    }
    assert(r@ =~= s@);
    r
}

/// The string spelling out `v`'s characters, in order.
pub fn chars_to_string(v: &Vec<char>) -> (r: String)
    ensures
        r@ == v@,
{
    let mut r = String::new();
    let mut i: usize = 0;
    while i < v.len()
        invariant
            i <= v.len(),
            r@ == v@.subrange(0, i as int),
        decreases v.len() - i,
    {
        push_char(&mut r, v[i]);
        assert(r@ =~= v@.subrange(0, i + 1 as int));
        i = i + 1;
    }
    assert(r@ =~= v@);
    r
}

/// Character-for-character equality of two string slices.
pub fn str_eq(a: &str, b: &str) -> (r: bool)
    ensures
        r == (a@ == b@),
{
    let na = a.unicode_len();
    let nb = b.unicode_len();
    if na != nb {
        assert(a@ != b@) by {
            assert(a@.len() != b@.len());
        }
        return false;
    }
    let mut i: usize = 0;
    while i < na
        invariant
            i <= na,
            na == a@.len(),
            na == b@.len(),
            forall|j: int| 0 <= j < i ==> a@[j] == b@[j],
        decreases na - i,
    {
        if a.get_char(i) != b.get_char(i) {
            return false;
        }
        i = i + 1;
    }
    assert(a@ =~= b@);
    true
}

/// Equality of two character vectors.
pub fn chars_eq(a: &Vec<char>, b: &Vec<char>) -> (r: bool)
    ensures
        r == (a@ == b@),
{
    if a.len() != b.len() {
        return false;
    }
    let mut i: usize = 0;
    while i < a.len()
        invariant
            i <= a.len(),
            a.len() == b.len(),
            forall|j: int| 0 <= j < i ==> a@[j] == b@[j],
        decreases a.len() - i,
    {
        if a[i] != b[i] {
            return false;
        }
        i = i + 1;
    }
    assert(a@ =~= b@);
    true
}

/// `p` is an initial segment of `s`.
pub open spec fn has_prefix(s: Seq<char>, p: Seq<char>) -> bool {
    p.len() <= s.len() && s.subrange(0, p.len() as int) == p
}

/// `p` is a final segment of `s`.
pub open spec fn has_suffix(s: Seq<char>, p: Seq<char>) -> bool {
    p.len() <= s.len() && s.subrange(s.len() - p.len(), s.len() as int) == p
}

pub fn str_has_prefix(s: &str, p: &str) -> (r: bool)
    ensures
        r == has_prefix(s@, p@),
{
    let ns = s.unicode_len();
    let np = p.unicode_len();
    if np > ns {
        return false;
    }
    let mut i: usize = 0;
    while i < np
        invariant
            i <= np,
            np <= ns,
            ns == s@.len(),
            np == p@.len(),
            forall|j: int| 0 <= j < i ==> s@[j] == p@[j],
        decreases np - i,
    {
        if s.get_char(i) != p.get_char(i) {
            assert(!has_prefix(s@, p@)) by {
                assert(s@.subrange(0, p@.len() as int)[i as int] != p@[i as int]);
            }
            return false;
        }
        i = i + 1;
    }
    assert(s@.subrange(0, p@.len() as int) =~= p@);
    true
}

pub fn str_has_suffix(s: &str, p: &str) -> (r: bool)
    ensures
        r == has_suffix(s@, p@),
{
    let ns = s.unicode_len();
    let np = p.unicode_len();
    if np > ns {
        return false;
    }
    let off = ns - np;
    let mut i: usize = 0;
    while i < np
        invariant
            i <= np,
            off == ns - np,
            np <= ns,
            ns == s@.len(),
            np == p@.len(),
            forall|j: int| 0 <= j < i ==> s@[off + j] == p@[j],
        decreases np - i,
    {
        if s.get_char(off + i) != p.get_char(i) {
            assert(!has_suffix(s@, p@)) by {
                assert(s@.subrange(s@.len() - p@.len(), s@.len() as int)[i as int] != p@[i as int]);
            }
            return false;
        }
        i = i + 1;
    }
    assert(s@.subrange(s@.len() - p@.len(), s@.len() as int) =~= p@);
    true
}

/// `pat` occurs in `s` at position `at`.
pub open spec fn match_at(s: Seq<char>, pat: Seq<char>, at: int) -> bool {
    0 <= at && at + pat.len() <= s.len() && s.subrange(at, at + pat.len()) == pat
}

/// Position of the first occurrence of `pat` in `s` at or after `from`.
pub open spec fn find_at(s: Seq<char>, pat: Seq<char>, from: int) -> Option<int>
    decreases s.len() - from,
{
    if from < 0 || from + pat.len() > s.len() {
        Option::None
    } else if s.subrange(from, from + pat.len()) == pat {
        Option::Some(from)
    } else if from >= s.len() {
        Option::None
    } else {
        find_at(s, pat, from + 1)
    }
}

pub proof fn lemma_find_at_bounds(s: Seq<char>, pat: Seq<char>, from: int)
    ensures
        find_at(s, pat, from) matches Option::Some(i) ==> {
            &&& from <= i
            &&& 0 <= i
            &&& i + pat.len() <= s.len()
            &&& match_at(s, pat, i)
        },
    decreases s.len() - from,
{
    if !(from < 0 || from + pat.len() > s.len()) {
        if s.subrange(from, from + pat.len()) == pat {
        } else if from < s.len() {
            lemma_find_at_bounds(s, pat, from + 1);
        }
    }
}

/// Whether `pat` matches at `at` is unchanged when `s` is cut down to a
/// suffix containing the match.
pub proof fn lemma_find_at_shift(s: Seq<char>, pat: Seq<char>, cut: int, from: int)
    requires
        0 <= cut <= from,
        cut <= s.len(),
    ensures
        find_at(s, pat, from) matches Option::Some(i) ==> find_at(
            s.subrange(cut, s.len() as int),
            pat,
            from - cut,
        ) == Option::Some(i - cut),
        find_at(s, pat, from) is None ==> find_at(
            s.subrange(cut, s.len() as int),
            pat,
            from - cut,
        ) is None,
    decreases s.len() - from,
{
    let t = s.subrange(cut, s.len() as int);
    if from + pat.len() > s.len() {
    } else {
        assert(s.subrange(from, from + pat.len()) =~= t.subrange(
            from - cut,
            from - cut + pat.len(),
        ));
        if s.subrange(from, from + pat.len()) == pat {
        } else if from < s.len() {
            lemma_find_at_shift(s, pat, cut, from + 1);
        } else {
            assert(s.subrange(from, from + pat.len()) =~= pat);
        }
    }
}

/// Every occurrence of `pat` in `s` replaced by `repl`, scanning left to
/// right without overlap, as `str::replace` does.  An empty pattern replaces
/// nothing.
pub open spec fn replace_all(s: Seq<char>, pat: Seq<char>, repl: Seq<char>) -> Seq<char>
    decreases s.len(),
    via replace_all_decreases
{
    if pat.len() == 0 {
        s
    } else {
        match find_at(s, pat, 0) {
            Option::None => s,
            Option::Some(i) => s.subrange(0, i) + repl + replace_all(
                s.subrange(i + pat.len(), s.len() as int),
                pat,
                repl,
            ),
        }
    }
}

#[via_fn]
proof fn replace_all_decreases(s: Seq<char>, pat: Seq<char>, repl: Seq<char>) {
    if pat.len() > 0 {
        lemma_find_at_bounds(s, pat, 0);
    }
}

/// Position of the first occurrence of `pat` in `s` at or after `from`.
pub fn find_sub(s: &Vec<char>, pat: &Vec<char>, from: usize) -> (r: Option<usize>)
    ensures
        match r {
            Option::Some(i) => find_at(s@, pat@, from as int) == Option::Some(i as int),
            Option::None => find_at(s@, pat@, from as int) is None,
        },
    decreases s@.len() - from,
{
    if from > s.len() || pat.len() > s.len() - from {
        return Option::None;
    }
    let mut j: usize = 0;
    let mut hit = true;
    while j < pat.len()
        invariant
            j <= pat.len(),
            from + pat.len() <= s.len(),
            hit == (s@.subrange(from as int, from + j as int) =~= pat@.subrange(0, j as int)),
        decreases pat.len() - j,
    {
        let ghost pre_s = s@.subrange(from as int, from + j as int);
        let ghost pre_p = pat@.subrange(0, j as int);
        let same = s[from + j] == pat[j];
        proof {
            assert(s@.subrange(from as int, from + (j + 1) as int) =~= pre_s.push(
                s@[from + j as int],
            ));
            assert(pat@.subrange(0, (j + 1) as int) =~= pre_p.push(pat@[j as int]));
            if !(hit && same) {
                if hit {
                    assert(s@.subrange(from as int, from + (j + 1) as int)[j as int] != pat@.subrange(
                        0,
                        (j + 1) as int,
                    )[j as int]);
                }
            }
        }
        hit = hit && same;
        j = j + 1;
    }
    if hit {
        assert(s@.subrange(from as int, from + pat@.len() as int) =~= pat@);
        return Option::Some(from);
    }
    assert(s@.subrange(from as int, from + pat@.len() as int) != pat@);
    find_sub(s, pat, from + 1)
}

/// `replace_all`, executed: scans `s` once, copying and substituting.
pub fn replace_chars(s: &Vec<char>, pat: &Vec<char>, repl: &Vec<char>) -> (r: Vec<char>)
    ensures
        r@ == replace_all(s@, pat@, repl@),
{
    if pat.len() == 0 {
        let mut out: Vec<char> = Vec::new();
        push_range(&mut out, s, 0, s.len());
        assert(out@ =~= s@);
        return out;
    }
    let mut out: Vec<char> = Vec::new();
    let mut pos: usize = 0;
    assert(s@.subrange(0, s@.len() as int) =~= s@);
    assert(Seq::<char>::empty() + replace_all(s@, pat@, repl@) =~= replace_all(s@, pat@, repl@));
    loop
        invariant
            pat@.len() > 0,
            pos <= s.len(),
            replace_all(s@, pat@, repl@) == out@ + replace_all(
                s@.subrange(pos as int, s@.len() as int),
                pat@,
                repl@,
            ),
        decreases s@.len() - pos,
    {
        let found = find_sub(s, pat, pos);
        proof {
            lemma_find_at_bounds(s@, pat@, pos as int);
            lemma_find_at_shift(s@, pat@, pos as int, pos as int);
        }
        match found {
            Option::None => {
                let ghost rest = s@.subrange(pos as int, s@.len() as int);
                assert(replace_all(rest, pat@, repl@) == rest) by {
                    assert(find_at(rest, pat@, 0) is None);
                }
                push_range(&mut out, s, pos, s.len());
                return out;
            },
            Option::Some(i) => {
                let ghost rest = s@.subrange(pos as int, s@.len() as int);
                let ghost nrest = s@.subrange((i + pat.len()) as int, s@.len() as int);
                proof {
                    assert(find_at(rest, pat@, 0) == Option::Some(i - pos));
                    lemma_find_at_bounds(rest, pat@, 0);
                    assert(replace_all(rest, pat@, repl@) == rest.subrange(0, i - pos) + repl@
                        + replace_all(
                        rest.subrange(i - pos + pat@.len(), rest.len() as int),
                        pat@,
                        repl@,
                    ));
                    assert(rest.subrange(0, i - pos) =~= s@.subrange(pos as int, i as int));
                    assert(rest.subrange(i - pos + pat@.len(), rest.len() as int) =~= nrest);
                }
                push_range(&mut out, s, pos, i);
                push_range(&mut out, repl, 0, repl.len());
                assert(repl@.subrange(0, repl@.len() as int) =~= repl@);
                pos = i + pat.len();
            },
        }
    }
}

/// Position of the first occurrence of `c` in `s` at or after `from`.
pub open spec fn find_ch(s: Seq<char>, c: char, from: int) -> Option<int>
    decreases s.len() - from,
{
    if from < 0 || from >= s.len() {
        Option::None
    } else if s[from] == c {
        Option::Some(from)
    } else {
        find_ch(s, c, from + 1)
    }
}

pub proof fn lemma_find_ch_bounds(s: Seq<char>, c: char, from: int)
    ensures
        find_ch(s, c, from) matches Option::Some(i) ==> from <= i && 0 <= i < s.len() && s[i] == c,
    decreases s.len() - from,
{
    if 0 <= from < s.len() && s[from] != c {
        lemma_find_ch_bounds(s, c, from + 1);
    }
}

pub proof fn lemma_find_ch_shift(s: Seq<char>, c: char, cut: int, from: int)
    requires
        0 <= cut <= from,
        cut <= s.len(),
    ensures
        find_ch(s, c, from) matches Option::Some(i) ==> find_ch(
            s.subrange(cut, s.len() as int),
            c,
            from - cut,
        ) == Option::Some(i - cut),
        find_ch(s, c, from) is None ==> find_ch(s.subrange(cut, s.len() as int), c, from - cut)
            is None,
    decreases s.len() - from,
{
    if 0 <= from < s.len() && s[from] != c {
        lemma_find_ch_shift(s, c, cut, from + 1);
    }
}

/// The pieces of `s` between occurrences of `sep`, as `str::split` yields
/// them: an empty input gives one empty piece, adjacent separators give
/// empty pieces.
pub open spec fn split_on(s: Seq<char>, sep: char) -> Seq<Seq<char>>
    decreases s.len(),
    via split_on_decreases
{
    match find_ch(s, sep, 0) {
        Option::None => seq![s],
        Option::Some(i) => seq![s.subrange(0, i)] + split_on(
            s.subrange(i + 1, s.len() as int),
            sep,
        ),
    }
}

#[via_fn]
proof fn split_on_decreases(s: Seq<char>, sep: char) {
    lemma_find_ch_bounds(s, sep, 0);
}

/// Position of the first occurrence of `c` in `s` at or after `from`.
pub fn find_char_from(s: &Vec<char>, c: char, from: usize) -> (r: Option<usize>)
    ensures
        match r {
            Option::Some(i) => find_ch(s@, c, from as int) == Option::Some(i as int),
            Option::None => find_ch(s@, c, from as int) is None,
        },
{
    let mut i = from;
    while i < s.len()
        invariant
            from <= i,
            find_ch(s@, c, from as int) == find_ch(s@, c, i as int),
        decreases s@.len() - i,
    {
        if s[i] == c {
            return Option::Some(i);
        }
        i = i + 1;
    }
    Option::None
}

/// The views of a sequence of character vectors.
pub open spec fn views_of(r: Seq<Vec<char>>) -> Seq<Seq<char>> {
    Seq::new(r.len(), |i: int| if 0 <= i < r.len() {
        r[i]@
    } else {
        Seq::empty()
    })
}

/// `split_on`, executed.
pub fn split_chars(s: &Vec<char>, sep: char) -> (r: Vec<Vec<char>>)
    ensures
        views_of(r@) == split_on(s@, sep),
{
    let mut out: Vec<Vec<char>> = Vec::new();
    let mut pos: usize = 0;
    assert(s@.subrange(0, s@.len() as int) =~= s@);
    loop
        invariant
            pos <= s@.len(),
            split_on(s@, sep) =~= views_of(out@) + split_on(
                s@.subrange(pos as int, s@.len() as int),
                sep,
            ),
        decreases s@.len() - pos,
    {
        let ghost rest = s@.subrange(pos as int, s@.len() as int);
        let found = find_char_from(s, sep, pos);
        proof {
            lemma_find_ch_bounds(s@, sep, pos as int);
            lemma_find_ch_shift(s@, sep, pos as int, pos as int);
        }
        match found {
            Option::None => {
                let mut piece: Vec<char> = Vec::new();
                push_range(&mut piece, s, pos, s.len());
                assert(piece@ =~= rest);
                out.push(piece);
                proof {
                    assert(split_on(rest, sep) =~= seq![rest]);
                    assert(views_of(out@) =~= views_of(out@.drop_last()) + seq![rest]);
                    assert(split_on(s@, sep) =~= views_of(out@));
                }
                return out;
            },
            Option::Some(i) => {
                let sl = s.len();
                assert(i < sl);
                let ghost nrest = s@.subrange((i + 1) as int, s@.len() as int);
                let mut piece: Vec<char> = Vec::new();
                push_range(&mut piece, s, pos, i);
                assert(piece@ =~= rest.subrange(0, i - pos));
                out.push(piece);
                proof {
                    assert(rest.subrange(i - pos + 1, rest.len() as int) =~= nrest);
                    assert(split_on(rest, sep) =~= seq![rest.subrange(0, i - pos)] + split_on(
                        nrest,
                        sep,
                    ));
                    assert(views_of(out@) =~= views_of(out@.drop_last()) + seq![
                        rest.subrange(0, i - pos),
                    ]);
                    assert(views_of(out@) + split_on(nrest, sep) =~= (views_of(out@.drop_last())
                        + seq![rest.subrange(0, i - pos)]) + split_on(nrest, sep));
                }
                pos = i + 1;
            },
        }
    }
}

/// `pat` occurs somewhere in `s`.
pub open spec fn contains_sub(s: Seq<char>, pat: Seq<char>) -> bool {
    exists|i: int| match_at(s, pat, i)
}

/// Whether `s` contains `pat`.
pub fn str_contains(s: &str, pat: &str) -> (r: bool)
    ensures
        r == contains_sub(s@, pat@),
{
    let cs = crate::text::str_to_chars(s);
    let pc = crate::text::str_to_chars(pat);
    proof {
        crate::text::lemma_find_at_bounds(s@, pat@, 0);
    }
    match crate::text::find_sub(&cs, &pc, 0) {
        Option::Some(i) => {
            assert(match_at(s@, pat@, i as int));
            true
        },
        Option::None => {
            proof {
                if contains_sub(s@, pat@) {
                    let w = choose|w: int| match_at(s@, pat@, w);
                    lemma_find_covers(s@, pat@, 0, w);
                }
            }
            false
        },
    }
}

/// A failed search means no position matches.
proof fn lemma_find_covers(s: Seq<char>, pat: Seq<char>, from: int, w: int)
    requires
        find_at(s, pat, from) is None,
        from <= w,
        from >= 0,
    ensures
        !match_at(s, pat, w),
    decreases s.len() - from,
{
    if from + pat.len() <= s.len() {
        if s.subrange(from, from + pat.len()) == pat {
        } else if from < s.len() {
            if w > from {
                lemma_find_covers(s, pat, from + 1, w);
            }
        } else {
            assert(s.subrange(from, from + pat.len()) =~= pat);
        }
    }
}

/// Appends `s[from..to]` to `out`.
pub fn push_range(out: &mut Vec<char>, s: &Vec<char>, from: usize, to: usize)
    requires
        from <= to <= s@.len(),
    ensures
        final(out)@ == old(out)@ + s@.subrange(from as int, to as int),
{
    let mut i = from;
    while i < to
        invariant
            from <= i <= to <= s@.len(),
            out@ == old(out)@ + s@.subrange(from as int, i as int),
        decreases to - i,
    {
        out.push(s[i]);
        assert(out@ =~= old(out)@ + s@.subrange(from as int, i + 1 as int));
        i = i + 1;
    }
    assert(out@ =~= old(out)@ + s@.subrange(from as int, to as int));
}

} // verus!
