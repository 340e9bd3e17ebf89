//! Character-level text utilities: whitespace trimming, splitting,
//! line iteration, decimal parsing and printing, prefix tests.
//!
//! Every function here works on the `Seq<char>` view of its input and
//! states its result over the spec functions of this module.

use vstd::prelude::*;

verus! {

// ---------------------------------------------------------------------
// Character classes.
// ---------------------------------------------------------------------

/// Whether `c` is an ASCII decimal digit.
pub open spec fn is_digit(c: char) -> bool {
    '0' <= c && c <= '9'
}

/// The Unicode `White_Space` property, which is what `char::is_whitespace`
/// tests.
pub open spec fn is_ws(c: char) -> bool {
    ||| ('\u{9}' <= c && c <= '\u{d}')
    ||| c == ' '
    ||| c == '\u{85}'
    ||| c == '\u{a0}'
    ||| c == '\u{1680}'
    ||| ('\u{2000}' <= c && c <= '\u{200a}')
    ||| c == '\u{2028}'
    ||| c == '\u{2029}'
    ||| c == '\u{202f}'
    ||| c == '\u{205f}'
    ||| c == '\u{3000}'
}

pub fn char_is_digit(c: char) -> (b: bool)
    ensures
        b == is_digit(c),
{
    '0' <= c && c <= '9'
}

pub fn char_is_ws(c: char) -> (b: bool)
    ensures
        b == is_ws(c),
{
    ('\u{9}' <= c && c <= '\u{d}') || c == ' ' || c == '\u{85}' || c == '\u{a0}' || c
        == '\u{1680}' || ('\u{2000}' <= c && c <= '\u{200a}') || c == '\u{2028}' || c
        == '\u{2029}' || c == '\u{202f}' || c == '\u{205f}' || c == '\u{3000}'
}

// ---------------------------------------------------------------------
// Building strings.
// ---------------------------------------------------------------------

/// Appends one character (`String::push`).
#[verifier::external_body]
pub fn push_char(s: &mut String, c: char)
    ensures
        final(s)@ == old(s)@.push(c),
{
    s.push(c);
}

/// The characters of `s`, in order.
pub fn to_chars(s: &str) -> (v: Vec<char>)
    ensures
        v@ == s@,
{
    let mut v: Vec<char> = Vec::new();
    for c in it: s.chars()
        invariant
            v@ == it.seq().take(it.index() as int),
            it.seq() == s@,
    {
        v.push(c);
    }
    v
}

/// The string made of `v[lo..hi]`.
pub fn string_of_range(v: &Vec<char>, lo: usize, hi: usize) -> (s: String)
    requires
        lo <= hi <= v.len(),
    ensures
        s@ == v@.subrange(lo as int, hi as int),
{
    let mut s = String::new();
    let mut i = lo;
    while i < hi
        invariant
            lo <= i <= hi <= v.len(),
            s@ == v@.subrange(lo as int, i as int),
        decreases hi - i,
    {
        push_char(&mut s, v[i]);
        i = i + 1;
        assert(s@ =~= v@.subrange(lo as int, i as int));
    }
    s
}

/// The string made of all of `v`.
pub fn string_of_chars(v: &Vec<char>) -> (s: String)
    ensures
        s@ == v@,
{
    let s = string_of_range(v, 0, v.len());
    assert(v@.subrange(0, v@.len() as int) =~= v@);
    s
}

/// `a` followed by `b`.
pub fn concat(a: &str, b: &str) -> (s: String)
    ensures
        s@ == a@ + b@,
{
    let mut s = a.to_owned();
    s.append(b);
    s
}

// ---------------------------------------------------------------------
// Trimming.
// ---------------------------------------------------------------------

/// `s` without its leading whitespace (`str::trim_start`).
pub open spec fn trim_start(s: Seq<char>) -> Seq<char>
    decreases s.len(),
{
    if s.len() > 0 && is_ws(s[0]) {
        trim_start(s.drop_first())
    } else {
        s
    }
}

/// `s` without its trailing whitespace (`str::trim_end`).
pub open spec fn trim_end(s: Seq<char>) -> Seq<char>
    decreases s.len(),
{
    if s.len() > 0 && is_ws(s.last()) {
        trim_end(s.drop_last())
    } else {
        s
    }
}

/// `s` without leading and trailing whitespace (`str::trim`).
pub open spec fn trim(s: Seq<char>) -> Seq<char> {
    trim_end(trim_start(s))
}

/// Index of the first non-whitespace character of `v[lo..hi]`, or `hi`.
pub fn skip_ws_forward(v: &Vec<char>, lo: usize, hi: usize) -> (k: usize)
    requires
        lo <= hi <= v.len(),
    ensures
        lo <= k <= hi,
        trim_start(v@.subrange(lo as int, hi as int)) == v@.subrange(k as int, hi as int),
{
    let mut k = lo;
    while k < hi && char_is_ws(v[k])
        invariant
            lo <= k <= hi <= v.len(),
            trim_start(v@.subrange(lo as int, hi as int)) == trim_start(
                v@.subrange(k as int, hi as int),
            ),
        decreases hi - k,
    {
        assert(v@.subrange(k as int, hi as int).drop_first() =~= v@.subrange(
            k + 1,
            hi as int,
        ));
        k = k + 1;
    }
    k
}

/// One past the last non-whitespace character of `v[lo..hi]`, or `lo`.
pub fn skip_ws_backward(v: &Vec<char>, lo: usize, hi: usize) -> (k: usize)
    requires
        lo <= hi <= v.len(),
    ensures
        lo <= k <= hi,
        trim_end(v@.subrange(lo as int, hi as int)) == v@.subrange(lo as int, k as int),
{
    let mut k = hi;
    while k > lo && char_is_ws(v[k - 1])
        invariant
            lo <= k <= hi <= v.len(),
            trim_end(v@.subrange(lo as int, hi as int)) == trim_end(
                v@.subrange(lo as int, k as int),
            ),
        decreases k - lo,
    {
        assert(v@.subrange(lo as int, k as int).drop_last() =~= v@.subrange(
            lo as int,
            k - 1,
        ));
        k = k - 1;
    }
    k
}

/// Bounds `(a, b)` such that `v[a..b]` is `trim(v[lo..hi])`.
pub fn trim_range(v: &Vec<char>, lo: usize, hi: usize) -> (r: (usize, usize))
    requires
        lo <= hi <= v.len(),
    ensures
        lo <= r.0 <= r.1 <= hi,
        trim(v@.subrange(lo as int, hi as int)) == v@.subrange(r.0 as int, r.1 as int),
{
    let a = skip_ws_forward(v, lo, hi);
    let b = skip_ws_backward(v, a, hi);
    (a, b)
}

/// `str::trim`, as an owned string.
pub fn trim_str(s: &str) -> (t: String)
    ensures
        t@ == trim(s@),
{
    let v = to_chars(s);
    let (a, b) = trim_range(&v, 0, v.len());
    assert(v@.subrange(0, v@.len() as int) =~= v@);
    string_of_range(&v, a, b)
}


// ---------------------------------------------------------------------
// Splitting on a character.
// ---------------------------------------------------------------------

/// The pieces of `s` between occurrences of `c` (`str::split` with a
/// `char` pattern). There is always at least one piece.
pub open spec fn split(s: Seq<char>, c: char) -> Seq<Seq<char>>
    decreases s.len(),
{
    if s.len() == 0 {
        seq![Seq::<char>::empty()]
    } else {
        let p = split(s.drop_last(), c);
        if s.last() == c {
            p.push(Seq::<char>::empty())
        } else {
            p.update(p.len() - 1, p.last().push(s.last()))
        }
    }
}

pub proof fn lemma_split_nonempty(s: Seq<char>, c: char)
    ensures
        split(s, c).len() >= 1,
    decreases s.len(),
{
    if s.len() > 0 {
        lemma_split_nonempty(s.drop_last(), c);
    }
}

/// The view of every string in `v`.
pub open spec fn views(v: Seq<String>) -> Seq<Seq<char>> {
    v.map_values(|x: String| x@)
}

/// Ranges `(a, b)` of `v` whose contents are the pieces of
/// `split(v[lo..hi], c)`.
pub fn split_ranges(v: &Vec<char>, lo: usize, hi: usize, c: char) -> (r: Vec<(usize, usize)>)
    requires
        lo <= hi <= v.len(),
    ensures
        r@.len() == split(v@.subrange(lo as int, hi as int), c).len(),
        forall|k: int|
            0 <= k < r@.len() ==> lo <= #[trigger] r@[k].0 <= r@[k].1 <= hi && v@.subrange(
                r@[k].0 as int,
                r@[k].1 as int,
            ) == split(v@.subrange(lo as int, hi as int), c)[k],
{
    let mut r: Vec<(usize, usize)> = Vec::new();
    let mut start = lo;
    let mut i = lo;
    assert(v@.subrange(lo as int, lo as int) =~= Seq::<char>::empty());
    while i < hi
        invariant
            lo <= start <= i <= hi <= v.len(),
            r@.len() + 1 == split(v@.subrange(lo as int, i as int), c).len(),
            split(v@.subrange(lo as int, i as int), c).last() == v@.subrange(
                start as int,
                i as int,
            ),
            forall|k: int|
                0 <= k < r@.len() ==> lo <= #[trigger] r@[k].0 <= r@[k].1 <= i && v@.subrange(
                    r@[k].0 as int,
                    r@[k].1 as int,
                ) == split(v@.subrange(lo as int, i as int), c)[k],
        decreases hi - i,
    {
        let ghost old_sub = v@.subrange(lo as int, i as int);
        let ghost new_sub = v@.subrange(lo as int, i + 1);
        assert(new_sub.drop_last() =~= old_sub);
        assert(new_sub.last() == v@[i as int]);
        proof {
            lemma_split_nonempty(old_sub, c);
        }
        if v[i] == c {
            r.push((start, i));
            start = i + 1;
            assert(v@.subrange(start as int, i + 1) =~= Seq::<char>::empty());
        } else {
            assert(v@.subrange(start as int, i + 1) =~= v@.subrange(start as int, i as int).push(
                v@[i as int],
            ));
        }
        i = i + 1;
    }
    r.push((start, hi));
    r
}

/// `str::split` on a character, as owned strings.
pub fn split_str(s: &str, c: char) -> (r: Vec<String>)
    ensures
        views(r@) == split(s@, c),
{
    let v = to_chars(s);
    assert(v@.subrange(0, v@.len() as int) =~= v@);
    let rs = split_ranges(&v, 0, v.len(), c);
    let mut out: Vec<String> = Vec::new();
    let mut k: usize = 0;
    while k < rs.len()
        invariant
            k <= rs@.len(),
            v@ == s@,
            rs@.len() == split(s@, c).len(),
            forall|j: int|
                0 <= j < rs@.len() ==> #[trigger] rs@[j].0 <= rs@[j].1 <= v@.len() && v@.subrange(
                    rs@[j].0 as int,
                    rs@[j].1 as int,
                ) == split(s@, c)[j],
            out@.len() == k,
            forall|j: int| 0 <= j < k ==> (#[trigger] out@[j])@ == split(s@, c)[j],
        decreases rs@.len() - k,
    {
        let (a, b) = rs[k];
        let piece = string_of_range(&v, a, b);
        out.push(piece);
        k = k + 1;
    }
    assert(views(out@) =~= split(s@, c));
    out
}

// ---------------------------------------------------------------------
// Lines.
// ---------------------------------------------------------------------

/// `s` without one trailing carriage return.
pub open spec fn strip_cr(s: Seq<char>) -> Seq<char> {
    if s.len() > 0 && s.last() == '\r' {
        s.drop_last()
    } else {
        s
    }
}

/// The lines of `s` (`str::lines`): split on `\n`, a `\r` before each
/// `\n` removed, and no final empty line after a trailing `\n`.
pub open spec fn lines(s: Seq<char>) -> Seq<Seq<char>> {
    let p = split(s, '\n');
    let body = p.drop_last().map_values(|x: Seq<char>| strip_cr(x));
    if p.last().len() == 0 {
        body
    } else {
        body.push(p.last())
    }
}

/// Ranges `(a, b)` of `v` holding the lines of `v[lo..hi]`.
pub fn line_ranges(v: &Vec<char>, lo: usize, hi: usize) -> (r: Vec<(usize, usize)>)
    requires
        lo <= hi <= v.len(),
    ensures
        r@.len() == lines(v@.subrange(lo as int, hi as int)).len(),
        forall|k: int|
            0 <= k < r@.len() ==> lo <= #[trigger] r@[k].0 <= r@[k].1 <= hi && v@.subrange(
                r@[k].0 as int,
                r@[k].1 as int,
            ) == lines(v@.subrange(lo as int, hi as int))[k],
{
    let ghost sub = v@.subrange(lo as int, hi as int);
    let ghost p = split(sub, '\n');
    let ps = split_ranges(v, lo, hi, '\n');
    proof {
        lemma_split_nonempty(sub, '\n');
    }
    let n = ps.len();
    let mut r: Vec<(usize, usize)> = Vec::new();
    let mut k: usize = 0;
    while k + 1 < n
        invariant
            n == ps@.len() == p.len() >= 1,
            p == split(sub, '\n'),
            sub == v@.subrange(lo as int, hi as int),
            lo <= hi <= v.len(),
            k <= n - 1,
            r@.len() == k,
            forall|j: int|
                0 <= j < ps@.len() ==> lo <= #[trigger] ps@[j].0 <= ps@[j].1 <= hi && v@.subrange(
                    ps@[j].0 as int,
                    ps@[j].1 as int,
                ) == p[j],
            forall|j: int|
                0 <= j < k ==> lo <= #[trigger] r@[j].0 <= r@[j].1 <= hi && v@.subrange(
                    r@[j].0 as int,
                    r@[j].1 as int,
                ) == strip_cr(p[j]),
        decreases n - k,
    {
        let (a, b) = ps[k];
        assert(v@.subrange(a as int, b as int) == p[k as int]);
        if a < b && v[b - 1] == '\r' {
            assert(v@.subrange(a as int, b - 1) =~= v@.subrange(a as int, b as int).drop_last());
            r.push((a, b - 1));
        } else {
            r.push((a, b));
        }
        k = k + 1;
    }
    let (a, b) = ps[n - 1];
    if a < b {
        r.push((a, b));
    }
    proof {
        let body = p.drop_last().map_values(|x: Seq<char>| strip_cr(x));
        assert(body.len() == n - 1);
        assert forall|j: int| 0 <= j < n - 1 implies body[j] == strip_cr(p[j]) by {}
        if a < b {
            assert(lines(sub) =~= body.push(p.last()));
        } else {
            assert(lines(sub) =~= body);
        }
    }
    r
}

/// `str::lines`, as owned strings.
pub fn lines_of(s: &str) -> (r: Vec<String>)
    ensures
        views(r@) == lines(s@),
{
    let v = to_chars(s);
    assert(v@.subrange(0, v@.len() as int) =~= v@);
    let rs = line_ranges(&v, 0, v.len());
    let mut out: Vec<String> = Vec::new();
    let mut k: usize = 0;
    while k < rs.len()
        invariant
            k <= rs@.len(),
            v@ == s@,
            rs@.len() == lines(s@).len(),
            forall|j: int|
                0 <= j < rs@.len() ==> #[trigger] rs@[j].0 <= rs@[j].1 <= v@.len() && v@.subrange(
                    rs@[j].0 as int,
                    rs@[j].1 as int,
                ) == lines(s@)[j],
            out@.len() == k,
            forall|j: int| 0 <= j < k ==> (#[trigger] out@[j])@ == lines(s@)[j],
        decreases rs@.len() - k,
    {
        let (a, b) = rs[k];
        out.push(string_of_range(&v, a, b));
        k = k + 1;
    }
    assert(views(out@) =~= lines(s@));
    out
}


// ---------------------------------------------------------------------
// Prefixes, suffixes, searching.
// ---------------------------------------------------------------------

/// Whether `v[at..]` starts with `p` (within `v[..hi]`).
pub fn has_prefix_at(v: &Vec<char>, at: usize, hi: usize, p: &Vec<char>) -> (b: bool)
    requires
        at <= hi <= v.len(),
    ensures
        b == p@.is_prefix_of(v@.subrange(at as int, hi as int)),
{
    if p.len() > hi - at {
        return false;
    }
    let mut k: usize = 0;
    while k < p.len()
        invariant
            at <= hi <= v.len(),
            p@.len() <= hi - at,
            k <= p@.len(),
            forall|j: int| 0 <= j < k ==> p@[j] == v@[at + j],
        decreases p@.len() - k,
    {
        if p[k] != v[at + k] {
            return false;
        }
        k = k + 1;
    }
    true
}

/// `str::starts_with` with a string pattern.
pub fn starts_with(s: &str, p: &str) -> (b: bool)
    ensures
        b == p@.is_prefix_of(s@),
{
    let v = to_chars(s);
    let pv = to_chars(p);
    assert(v@.subrange(0, v@.len() as int) =~= v@);
    has_prefix_at(&v, 0, v.len(), &pv)
}

/// `p` is a suffix of `s`.
pub open spec fn is_suffix(p: Seq<char>, s: Seq<char>) -> bool {
    p.len() <= s.len() && s.subrange(s.len() - p.len(), s.len() as int) == p
}

/// `str::ends_with` with a string pattern.
pub fn ends_with(s: &str, p: &str) -> (b: bool)
    ensures
        b == is_suffix(p@, s@),
{
    let v = to_chars(s);
    let pv = to_chars(p);
    if pv.len() > v.len() {
        return false;
    }
    let at = v.len() - pv.len();
    let r = has_prefix_at(&v, at, v.len(), &pv);
    assert(r == is_suffix(p@, s@)) by {
        if r {
            assert(v@.subrange(at as int, v@.len() as int) =~= pv@);
        } else {
            if is_suffix(p@, s@) {
                assert(pv@.is_prefix_of(v@.subrange(at as int, v@.len() as int)));
            }
        }
    }
    r
}

/// `needle` occurs in `s` starting at index `i`.
pub open spec fn occurs_at(s: Seq<char>, needle: Seq<char>, i: int) -> bool {
    0 <= i && i + needle.len() <= s.len() && s.subrange(i, i + needle.len()) == needle
}

/// `str::contains` with a string pattern.
pub open spec fn contains(s: Seq<char>, needle: Seq<char>) -> bool {
    exists|i: int| occurs_at(s, needle, i)
}

/// The first index at which `needle` occurs in `v[lo..hi]`, if any.
pub fn find_from(v: &Vec<char>, lo: usize, hi: usize, needle: &Vec<char>) -> (r: Option<usize>)
    requires
        lo <= hi <= v.len(),
    ensures
        match r {
            Some(i) => lo <= i <= hi && occurs_at(v@.subrange(lo as int, hi as int), needle@, i - lo)
                && forall|j: int| 0 <= j < i - lo ==> !occurs_at(v@.subrange(lo as int, hi as int), needle@, j),
            None => !contains(v@.subrange(lo as int, hi as int), needle@),
        },
{
    let ghost sub = v@.subrange(lo as int, hi as int);
    if needle.len() > hi - lo {
        assert(!contains(sub, needle@));
        return None;
    }
    let last = hi - needle.len();
    let mut i = lo;
    while i <= last
        invariant
            lo <= i <= last + 1,
            last + needle@.len() == hi,
            hi <= v.len(),
            sub == v@.subrange(lo as int, hi as int),
            forall|j: int| 0 <= j < i - lo ==> !occurs_at(sub, needle@, j),
        decreases last + 1 - i,
    {
        let found = has_prefix_at(v, i, hi, needle);
        assert(sub.subrange(i - lo, i - lo + needle@.len()) =~= v@.subrange(
            i as int,
            i + needle@.len(),
        ));
        assert(v@.subrange(i as int, hi as int).subrange(0, needle@.len() as int) =~= v@.subrange(
            i as int,
            i + needle@.len(),
        ));
        if found {
            return Some(i);
        }
        i = i + 1;
    }
    assert(!contains(sub, needle@)) by {
        if contains(sub, needle@) {
            let j = choose|j: int| occurs_at(sub, needle@, j);
            assert(j < i - lo);
        }
    }
    None
}

/// The first index at or after `i` at which `needle` occurs in `s`.
pub open spec fn find_from_spec(s: Seq<char>, needle: Seq<char>, i: int) -> Option<int>
    decreases s.len() + 1 - i,
{
    if i < 0 || i + needle.len() > s.len() {
        None
    } else if occurs_at(s, needle, i) {
        Some(i)
    } else {
        find_from_spec(s, needle, i + 1)
    }
}

/// The first index at which `needle` occurs in `s` (`str::find`).
pub open spec fn find_str(s: Seq<char>, needle: Seq<char>) -> Option<int> {
    find_from_spec(s, needle, 0)
}

/// `find_from_spec` is the least occurrence at or after `k`.
pub proof fn lemma_find_from_spec(s: Seq<char>, needle: Seq<char>, k: int)
    requires
        0 <= k,
    ensures
        match find_from_spec(s, needle, k) {
            Some(i) => k <= i && occurs_at(s, needle, i) && forall|j: int| k <= j < i ==> !occurs_at(s, needle, j),
            None => forall|j: int| k <= j ==> !occurs_at(s, needle, j),
        },
    decreases s.len() + 1 - k,
{
    if k + needle.len() <= s.len() && !occurs_at(s, needle, k) {
        lemma_find_from_spec(s, needle, k + 1);
    }
}

/// The first index at which `needle` occurs in `v[lo..hi]`, counted
/// from `lo`.
pub fn find_str_range(v: &Vec<char>, lo: usize, hi: usize, needle: &Vec<char>) -> (r: Option<usize>)
    requires
        lo <= hi <= v.len(),
    ensures
        match r {
            Some(i) => lo <= i <= hi && find_str(v@.subrange(lo as int, hi as int), needle@) == Some(
                i - lo,
            ),
            None => find_str(v@.subrange(lo as int, hi as int), needle@) is None,
        },
{
    let ghost sub = v@.subrange(lo as int, hi as int);
    proof {
        lemma_find_from_spec(sub, needle@, 0);
    }
    match find_from(v, lo, hi, needle) {
        Some(i) => {
            proof {
                match find_str(sub, needle@) {
                    Some(k) => {
                        if k < i - lo {
                            assert(!occurs_at(sub, needle@, k));
                        }
                        if k > i - lo {
                            assert(!occurs_at(sub, needle@, i - lo));
                        }
                    },
                    None => {
                        assert(!occurs_at(sub, needle@, i - lo));
                    },
                }
            }
            Some(i)
        },
        None => {
            proof {
                match find_str(sub, needle@) {
                    Some(k) => {
                        assert(occurs_at(sub, needle@, k));
                    },
                    None => {},
                }
            }
            None
        },
    }
}

/// `str::contains` with a string pattern.
pub fn contains_str(s: &str, needle: &str) -> (b: bool)
    ensures
        b == contains(s@, needle@),
{
    let v = to_chars(s);
    let n = to_chars(needle);
    assert(v@.subrange(0, v@.len() as int) =~= v@);
    find_from(&v, 0, v.len(), &n).is_some()
}

/// The index of the first `c` in `s`, if any.
pub open spec fn first_index(s: Seq<char>, c: char) -> Option<int>
    decreases s.len(),
{
    if s.len() == 0 {
        None
    } else if s[0] == c {
        Some(0)
    } else {
        match first_index(s.drop_first(), c) {
            Some(i) => Some(i + 1),
            None => None,
        }
    }
}

pub proof fn lemma_first_index(s: Seq<char>, c: char)
    ensures
        match first_index(s, c) {
            Some(i) => 0 <= i < s.len() && s[i] == c && forall|j: int| 0 <= j < i ==> s[j] != c,
            None => forall|j: int| 0 <= j < s.len() ==> s[j] != c,
        },
    decreases s.len(),
{
    if s.len() > 0 && s[0] != c {
        lemma_first_index(s.drop_first(), c);
        match first_index(s.drop_first(), c) {
            Some(i) => {
                assert forall|j: int| 0 <= j < i + 1 implies s[j] != c by {
                    if j > 0 {
                        assert(s[j] == s.drop_first()[j - 1]);
                    }
                }
            },
            None => {
                assert forall|j: int| 0 <= j < s.len() implies s[j] != c by {
                    if j > 0 {
                        assert(s[j] == s.drop_first()[j - 1]);
                    }
                }
            },
        }
    }
}

/// The index of the first `c` in `v[lo..hi]`, counted from `lo`.
pub fn find_char(v: &Vec<char>, lo: usize, hi: usize, c: char) -> (r: Option<usize>)
    requires
        lo <= hi <= v.len(),
    ensures
        match r {
            Some(i) => lo <= i < hi && first_index(v@.subrange(lo as int, hi as int), c) == Some(
                i - lo,
            ),
            None => first_index(v@.subrange(lo as int, hi as int), c) == None::<int>,
        },
{
    let ghost sub = v@.subrange(lo as int, hi as int);
    proof {
        lemma_first_index(sub, c);
    }
    let mut i = lo;
    while i < hi
        invariant
            lo <= i <= hi <= v.len(),
            sub == v@.subrange(lo as int, hi as int),
            forall|j: int| 0 <= j < i - lo ==> sub[j] != c,
        decreases hi - i,
    {
        if v[i] == c {
            assert(sub[i - lo] == v@[i as int]);
            proof {
                lemma_first_index(sub, c);
                match first_index(sub, c) {
                    Some(k) => {
                        if k < i - lo {
                            assert(sub[k] != c);
                        } else if k > i - lo {
                            assert(sub[i - lo] != c);
                        }
                        assert(k == i - lo);
                    },
                    None => {
                        assert(sub[i - lo] == c);
                    },
                }
            }
            return Some(i);
        }
        i = i + 1;
    }
    proof {
        match first_index(sub, c) {
            Some(k) => {
                assert(sub[k] != c);
            },
            None => {},
        }
    }
    None
}

// ---------------------------------------------------------------------
// Decimal numbers.
// ---------------------------------------------------------------------

/// All characters of `s` are ASCII digits.
pub open spec fn all_digits(s: Seq<char>) -> bool {
    forall|i: int| 0 <= i < s.len() ==> is_digit(#[trigger] s[i])
}

/// The value of a digit character.
pub open spec fn digit_value(c: char) -> nat {
    (c as int - '0' as int) as nat
}

/// The value of a string of decimal digits, most significant first.
pub open spec fn digits_value(s: Seq<char>) -> nat
    decreases s.len(),
{
    if s.len() == 0 {
        0
    } else {
        digits_value(s.drop_last()) * 10 + digit_value(s.last())
    }
}

/// `s` without one leading `+` sign.
pub open spec fn unsigned_body(s: Seq<char>) -> Seq<char> {
    if s.len() > 0 && s[0] == '+' {
        s.drop_first()
    } else {
        s
    }
}

/// What `str::parse::<u64>` returns: an optional `+`, then one or more
/// digits whose value fits in a `u64`.
pub open spec fn parse_u64(s: Seq<char>) -> Option<u64> {
    let b = unsigned_body(s);
    if b.len() > 0 && all_digits(b) && digits_value(b) <= u64::MAX {
        Some(digits_value(b) as u64)
    } else {
        None
    }
}

pub proof fn lemma_digits_value_monotone(s: Seq<char>, k: int)
    requires
        0 <= k <= s.len(),
        all_digits(s),
    ensures
        digits_value(s.take(k)) <= digits_value(s),
    decreases s.len() - k,
{
    if k < s.len() {
        lemma_digits_value_monotone(s, k + 1);
        assert(s.take(k + 1).drop_last() =~= s.take(k));
    } else {
        assert(s.take(k) =~= s);
    }
}

/// `str::parse::<u64>` on `v[lo..hi]`.
pub fn parse_u64_range(v: &Vec<char>, lo: usize, hi: usize) -> (r: Option<u64>)
    requires
        lo <= hi <= v.len(),
    ensures
        r == parse_u64(v@.subrange(lo as int, hi as int)),
{
    let ghost sub = v@.subrange(lo as int, hi as int);
    let mut start = lo;
    if lo < hi && v[lo] == '+' {
        start = lo + 1;
    }
    let ghost body = v@.subrange(start as int, hi as int);
    assert(unsigned_body(sub) =~= body);
    if start == hi {
        return None;
    }
    let mut acc: u64 = 0;
    let mut i = start;
    while i < hi
        invariant
            lo <= start <= i <= hi <= v.len(),
            body == v@.subrange(start as int, hi as int),
            all_digits(v@.subrange(start as int, i as int)),
            sub == v@.subrange(lo as int, hi as int),
            unsigned_body(sub) == body,
            acc as nat == digits_value(v@.subrange(start as int, i as int)),
        decreases hi - i,
    {
        let c = v[i];
        assert(v@.subrange(start as int, i + 1).drop_last() =~= v@.subrange(start as int, i as int));
        if !char_is_digit(c) {
            assert(!all_digits(body)) by {
                assert(body[i - start] == c);
            }
            return None;
        }
        let d = (c as u32 - '0' as u32) as u64;
        assert(d == digit_value(c));
        if acc > (u64::MAX - d) / 10 {
            proof {
                assert(acc * 10 + d > u64::MAX) by (nonlinear_arith)
                    requires
                        acc > (u64::MAX - d) / 10,
                        d <= 9,
                ;
                let k = i + 1 - start;
                if all_digits(body) {
                    assert(body.take(k) =~= v@.subrange(start as int, i + 1));
                    lemma_digits_value_monotone(body, k);
                }
            }
            return None;
        }
        acc = acc * 10 + d;
        i = i + 1;
    }
    Some(acc)
}

/// `str::parse::<u64>`.
pub fn parse_u64_str(s: &str) -> (r: Option<u64>)
    ensures
        r == parse_u64(s@),
{
    let v = to_chars(s);
    assert(v@.subrange(0, v@.len() as int) =~= v@);
    parse_u64_range(&v, 0, v.len())
}

/// The character of digit `d`.
pub open spec fn digit_char(d: nat) -> char {
    (d + 48) as char
}

/// The decimal form of `n` (`u64::to_string`).
pub open spec fn decimal(n: nat) -> Seq<char>
    decreases n,
{
    if n < 10 {
        seq![digit_char(n)]
    } else {
        decimal(n / 10).push(digit_char(n % 10))
    }
}

/// The character of digit `d`.
fn digit_to_char(d: u64) -> (c: char)
    requires
        d < 10,
    ensures
        c == digit_char(d as nat),
        is_digit(c),
        digit_value(c) == d,
{
    match d {
        0 => '0',
        1 => '1',
        2 => '2',
        3 => '3',
        4 => '4',
        5 => '5',
        6 => '6',
        7 => '7',
        8 => '8',
        _ => '9',
    }
}

/// Appends the decimal form of `n`.
pub fn push_decimal(s: &mut String, n: u64)
    ensures
        final(s)@ == old(s)@ + decimal(n as nat),
    decreases n,
{
    if n >= 10 {
        push_decimal(s, n / 10);
    }
    push_char(s, digit_to_char(n % 10));
    proof {
        if n < 10 {
            assert(old(s)@ + decimal(n as nat) =~= old(s)@.push(digit_char(n as nat)));
        } else {
            assert(old(s)@ + decimal(n as nat) =~= (old(s)@ + decimal((n / 10) as nat)).push(
                digit_char((n % 10) as nat),
            ));
        }
    }
}


pub proof fn lemma_decimal_digits(n: nat)
    ensures
        decimal(n).len() > 0,
        all_digits(decimal(n)),
        digits_value(decimal(n)) == n,
        decimal(n)[0] != '+',
    decreases n,
{
    assert(digit_value(digit_char(n % 10)) == n % 10);
    if n >= 10 {
        lemma_decimal_digits(n / 10);
        assert(decimal(n).drop_last() =~= decimal(n / 10));
        assert(decimal(n)[0] == decimal(n / 10)[0]);
        assert((n / 10) * 10 + n % 10 == n) by (nonlinear_arith);
        assert(decimal(n).last() == digit_char(n % 10));
        assert(digits_value(decimal(n)) == digits_value(decimal(n / 10)) * 10 + digit_value(
            digit_char(n % 10),
        ));
    } else {
        assert(decimal(n).last() == digit_char(n % 10));
        assert(decimal(n).drop_last() =~= Seq::<char>::empty());
        assert(digits_value(Seq::<char>::empty()) == 0);
        assert(digits_value(decimal(n)) == digits_value(Seq::<char>::empty()) * 10 + digit_value(
            digit_char(n % 10),
        ));
    }
}

/// Printing a `u64` in decimal and parsing it back gives the number.
pub proof fn lemma_parse_decimal(n: u64)
    ensures
        parse_u64(decimal(n as nat)) == Some(n),
{
    lemma_decimal_digits(n as nat);
    assert(unsigned_body(decimal(n as nat)) == decimal(n as nat));
}

/// The decimal form of `n` (`u64::to_string`).
pub fn u64_to_string(n: u64) -> (s: String)
    ensures
        s@ == decimal(n as nat),
{
    let mut s = String::new();
    push_decimal(&mut s, n);
    assert(s@ =~= decimal(n as nat));
    s
}

// ---------------------------------------------------------------------
// Case.
// ---------------------------------------------------------------------

/// Whether `c` is ASCII.
pub open spec fn is_ascii_char(c: char) -> bool {
    (c as u32) < 128
}

/// ASCII lowercase of one character (`char::to_ascii_lowercase`).
pub open spec fn ascii_lower_char(c: char) -> char {
    if 'A' <= c && c <= 'Z' {
        ((c as u32) + 32) as char
    } else {
        c
    }
}

/// ASCII uppercase of one character (`char::to_ascii_uppercase`).
pub open spec fn ascii_upper_char(c: char) -> char {
    if 'a' <= c && c <= 'z' {
        ((c as u32) - 32) as char
    } else {
        c
    }
}

/// ASCII lowercase of a string (`str::to_ascii_lowercase`).
pub open spec fn ascii_lower(s: Seq<char>) -> Seq<char> {
    s.map_values(|c: char| ascii_lower_char(c))
}

/// ASCII uppercase of a string (`str::to_ascii_uppercase`).
pub open spec fn ascii_upper(s: Seq<char>) -> Seq<char> {
    s.map_values(|c: char| ascii_upper_char(c))
}

/// Full Unicode lowercase of a string, as `str::to_lowercase` computes it.
pub uninterp spec fn lowercase(s: Seq<char>) -> Seq<char>;

/// What `{:?}` prints for a string (`<str as Debug>::fmt`): the text in
/// double quotes with its special characters escaped.
pub uninterp spec fn debug_str(s: Seq<char>) -> Seq<char>;

/// A string whose characters all print as themselves: printable ASCII
/// other than the double quote, the single quote and the backslash.
pub open spec fn plain_debug(s: Seq<char>) -> bool {
    forall|i: int| 0 <= i < s.len() ==> (' ' <= #[trigger] s[i] && s[i] <= '~' && s[i] != '"' && s[i] != '\'' && s[i] != '\\')
}

/// Formats `s` with `{:?}`. Its result is named `debug_str`; the
/// contract adds what `char::escape_debug` documents for printable
/// ASCII: such characters (but quotes and the backslash) are kept, so a
/// plain string prints as itself in double quotes. Nothing is stated of
/// how other characters are escaped.
#[verifier::external_body]
pub fn debug_quote(s: &str) -> (r: String)
    ensures
        r@ == debug_str(s@),
        plain_debug(s@) ==> r@ == "\""@ + s@ + "\""@,
{
    format!("{s:?}")
}

/// Calls `str::to_lowercase`. Its result is named `lowercase`; the
/// contract adds what the Unicode case mapping gives on ASCII text:
/// letters `A`..`Z` become `a`..`z` and every other ASCII character is
/// kept. Nothing is stated of non-ASCII text.
#[verifier::external_body]
pub fn to_lowercase(s: &str) -> (r: String)
    ensures
        r@ == lowercase(s@),
        (forall|i: int| 0 <= i < s@.len() ==> is_ascii_char(#[trigger] s@[i])) ==> r@ == ascii_lower(
            s@,
        ),
{
    s.to_lowercase()
}

pub fn char_to_ascii_lower(c: char) -> (r: char)
    ensures
        r == ascii_lower_char(c),
{
    if 'A' <= c && c <= 'Z' {
        let b = (c as u8) + 32;
        b as char
    } else {
        c
    }
}


// ---------------------------------------------------------------------
// Joining.
// ---------------------------------------------------------------------

/// The pieces of `parts` with `sep` between neighbours (`[T]::join`).
pub open spec fn join(parts: Seq<Seq<char>>, sep: Seq<char>) -> Seq<char>
    decreases parts.len(),
{
    if parts.len() == 0 {
        Seq::<char>::empty()
    } else if parts.len() == 1 {
        parts[0]
    } else {
        join(parts.drop_last(), sep) + sep + parts.last()
    }
}

/// `parts.join(sep)`.
pub fn join_strings(parts: &Vec<String>, sep: &str) -> (s: String)
    ensures
        s@ == join(views(parts@), sep@),
{
    let mut s = String::new();
    let mut k: usize = 0;
    while k < parts.len()
        invariant
            k <= parts@.len(),
            s@ == join(views(parts@).take(k as int), sep@),
        decreases parts@.len() - k,
    {
        let ghost before = s@;
        assert(views(parts@).take(k + 1).drop_last() =~= views(parts@).take(k as int));
        if k > 0 {
            s.append(sep);
        }
        s.append(parts[k].as_str());
        k = k + 1;
        proof {
            if k == 1 {
                assert(views(parts@).take(1) =~= seq![parts@[0]@]);
                assert(s@ =~= parts@[0]@);
            } else {
                assert(s@ =~= before + sep@ + parts@[k - 1]@);
            }
        }
    }
    assert(views(parts@).take(parts@.len() as int) =~= views(parts@));
    s
}


/// Whether two vectors of characters are equal.
pub fn chars_eq(a: &Vec<char>, b: &Vec<char>) -> (r: bool)
    ensures
        r == (a@ == b@),
{
    if a.len() != b.len() {
        return false;
    }
    let mut k: usize = 0;
    while k < a.len()
        invariant
            a@.len() == b@.len(),
            k <= a@.len(),
            forall|j: int| 0 <= j < k ==> a@[j] == b@[j],
        decreases a@.len() - k,
    {
        if a[k] != b[k] {
            return false;
        }
        k = k + 1;
    }
    assert(a@ =~= b@);
    true
}

/// Whether `x` is one of the strings of `v`.
pub fn contains_string(v: &Vec<String>, x: &str) -> (b: bool)
    ensures
        b == views(v@).contains(x@),
{
    let mut j: usize = 0;
    while j < v.len()
        invariant
            j <= v@.len(),
            forall|k: int| 0 <= k < j ==> v@[k]@ != x@,
        decreases v@.len() - j,
    {
        if eq_str(v[j].as_str(), x) {
            assert(views(v@)[j as int] == x@);
            return true;
        }
        j = j + 1;
    }
    assert forall|k: int| 0 <= k < views(v@).len() implies views(v@)[k] != x@ by {
        assert(views(v@)[k] == v@[k]@);
    }
    false
}

/// String equality on `&str`.
pub fn eq_str(a: &str, b: &str) -> (r: bool)
    ensures
        r == (a@ == b@),
{
    let va = to_chars(a);
    let vb = to_chars(b);
    chars_eq(&va, &vb)
}


// ---------------------------------------------------------------------
// UTF-8 byte offsets.
// ---------------------------------------------------------------------

/// The UTF-8 length of `c` (`char::len_utf8`).
pub open spec fn char_bytes(c: char) -> nat {
    if (c as u32) < 0x80 {
        1
    } else if (c as u32) < 0x800 {
        2
    } else if (c as u32) < 0x10000 {
        3
    } else {
        4
    }
}

/// The UTF-8 length of `s` (`str::len`).
pub open spec fn byte_len(s: Seq<char>) -> nat
    decreases s.len(),
{
    if s.len() == 0 {
        0
    } else {
        char_bytes(s[0]) + byte_len(s.drop_first())
    }
}

/// The number of characters before byte offset `n` of `s`, when `n`
/// is a character boundary of `s`; `None` when slicing `s` at byte `n`
/// would panic.
pub open spec fn char_index_at_byte(s: Seq<char>, n: nat) -> Option<nat>
    decreases s.len(),
{
    if n == 0 {
        Some(0)
    } else if s.len() == 0 || char_bytes(s[0]) > n {
        None
    } else {
        match char_index_at_byte(s.drop_first(), (n - char_bytes(s[0])) as nat) {
            Some(k) => Some(k + 1),
            None => None,
        }
    }
}

pub fn char_len_utf8(c: char) -> (n: usize)
    ensures
        n == char_bytes(c),
{
    let u = c as u32;
    if u < 0x80 {
        1
    } else if u < 0x800 {
        2
    } else if u < 0x10000 {
        3
    } else {
        4
    }
}

/// The UTF-8 length of `v[lo..hi]`, if it fits in a `usize`.
pub fn byte_len_range(v: &Vec<char>, lo: usize, hi: usize) -> (n: Option<usize>)
    requires
        lo <= hi <= v.len(),
    ensures
        match n {
            Some(n) => n == byte_len(v@.subrange(lo as int, hi as int)),
            None => byte_len(v@.subrange(lo as int, hi as int)) > usize::MAX,
        },
{
    let mut k = hi;
    let mut acc: usize = 0;
    assert(v@.subrange(hi as int, hi as int) =~= Seq::<char>::empty());
    while k > lo
        invariant
            lo <= k <= hi <= v.len(),
            acc == byte_len(v@.subrange(k as int, hi as int)),
        decreases k - lo,
    {
        let b = char_len_utf8(v[k - 1]);
        assert(v@.subrange(k - 1, hi as int).drop_first() =~= v@.subrange(k as int, hi as int));
        if acc > usize::MAX - b {
            proof {
                lemma_byte_len_suffix(v@.subrange(lo as int, hi as int), (k - 1 - lo) as int);
                assert(v@.subrange(lo as int, hi as int).skip(k - 1 - lo) =~= v@.subrange(
                    k - 1,
                    hi as int,
                ));
            }
            return None;
        }
        acc = acc + b;
        k = k - 1;
    }
    Some(acc)
}

pub proof fn lemma_byte_len_suffix(s: Seq<char>, i: int)
    requires
        0 <= i <= s.len(),
    ensures
        byte_len(s.skip(i)) <= byte_len(s),
    decreases i,
{
    if i > 0 {
        lemma_byte_len_suffix(s.drop_first(), i - 1);
        assert(s.drop_first().skip(i - 1) =~= s.skip(i));
    } else {
        assert(s.skip(0) =~= s);
    }
}

/// The number of characters of `v[lo..hi]` before its byte offset `n`,
/// or `None` when `n` is not a character boundary there.
pub fn char_index_at_byte_range(v: &Vec<char>, lo: usize, hi: usize, n: usize) -> (r: Option<usize>)
    requires
        lo <= hi <= v.len(),
    ensures
        match r {
            Some(k) => char_index_at_byte(v@.subrange(lo as int, hi as int), n as nat) == Some(
                k as nat,
            ) && k <= hi - lo,
            None => char_index_at_byte(v@.subrange(lo as int, hi as int), n as nat) is None,
        },
{
    let mut i = lo;
    let mut rest = n;
    while rest > 0
        invariant
            lo <= i <= hi <= v.len(),
            rest <= n,
            char_index_at_byte(v@.subrange(lo as int, hi as int), n as nat) == match char_index_at_byte(
                v@.subrange(i as int, hi as int),
                rest as nat,
            ) {
                Some(k) => Some((k + (i - lo)) as nat),
                None => None::<nat>,
            },
        decreases rest,
    {
        if i == hi {
            return None;
        }
        let b = char_len_utf8(v[i]);
        assert(v@.subrange(i as int, hi as int)[0] == v@[i as int]);
        if b > rest {
            return None;
        }
        assert(v@.subrange(i as int, hi as int).drop_first() =~= v@.subrange(i + 1, hi as int));
        rest = rest - b;
        i = i + 1;
    }
    Some(i - lo)
}

} // verus!
