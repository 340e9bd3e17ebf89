//! The order of strings by code point, and sorting by it.
//!
//! `str`'s `Ord` compares UTF-8 bytes, which orders strings exactly as
//! comparing their characters by code point does.

use vstd::prelude::*;

use crate::text::{to_chars, views};

verus! {

/// Lexicographic order of two strings by code point, as -1, 0 or 1
/// (what `str::cmp` gives: UTF-8 byte order is code point order).
pub open spec fn lex_order(x: Seq<char>, y: Seq<char>) -> int
    decreases x.len(),
{
    if x.len() == 0 {
        if y.len() == 0 {
            0
        } else {
            -1
        }
    } else if y.len() == 0 {
        1
    } else if x[0] < y[0] {
        -1
    } else if y[0] < x[0] {
        1
    } else {
        lex_order(x.drop_first(), y.drop_first())
    }
}


/// Lexicographic order of `x[xl..xh]` and `y[yl..yh]`.
pub fn lex_order_range(x: &Vec<char>, xl: usize, xh: usize, y: &Vec<char>, yl: usize, yh: usize) -> (r: i8)
    requires
        xl <= xh <= x.len(),
        yl <= yh <= y.len(),
    ensures
        r as int == lex_order(x@.subrange(xl as int, xh as int), y@.subrange(yl as int, yh as int)),
        -1 <= r <= 1,
{
    let mut i = xl;
    let mut j = yl;
    while i < xh && j < yh
        invariant
            xl <= i <= xh <= x.len(),
            yl <= j <= yh <= y.len(),
            i - xl == j - yl,
            lex_order(x@.subrange(xl as int, xh as int), y@.subrange(yl as int, yh as int))
                == lex_order(x@.subrange(i as int, xh as int), y@.subrange(j as int, yh as int)),
        decreases xh - i,
    {
        let a = x[i];
        let b = y[j];
        assert(x@.subrange(i as int, xh as int)[0] == a);
        assert(y@.subrange(j as int, yh as int)[0] == b);
        if a < b {
            return -1;
        }
        if b < a {
            return 1;
        }
        assert(x@.subrange(i as int, xh as int).drop_first() =~= x@.subrange(i + 1, xh as int));
        assert(y@.subrange(j as int, yh as int).drop_first() =~= y@.subrange(j + 1, yh as int));
        i = i + 1;
        j = j + 1;
    }
    if i == xh && j == yh {
        0
    } else if i == xh {
        -1
    } else {
        1
    }
}


/// `x` comes strictly before `y`.
pub open spec fn lex_lt(x: Seq<char>, y: Seq<char>) -> bool {
    lex_order(x, y) == -1
}

/// Every string comes strictly before each later one: sorted, with no
/// string twice.
pub open spec fn strictly_sorted(s: Seq<Seq<char>>) -> bool {
    forall|i: int, j: int| 0 <= i < j < s.len() ==> lex_lt(#[trigger] s[i], #[trigger] s[j])
}

/// The order is one of -1, 0, 1, and swapping the arguments negates it.
pub proof fn lemma_lex_antisym(x: Seq<char>, y: Seq<char>)
    ensures
        -1 <= lex_order(x, y) <= 1,
        lex_order(x, y) == -lex_order(y, x),
    decreases x.len(),
{
    if x.len() > 0 && y.len() > 0 && x[0] == y[0] {
        lemma_lex_antisym(x.drop_first(), y.drop_first());
    }
}

/// Order 0 means equal strings.
pub proof fn lemma_lex_zero(x: Seq<char>, y: Seq<char>)
    ensures
        lex_order(x, y) == 0 <==> x == y,
    decreases x.len(),
{
    if x.len() == 0 && y.len() == 0 {
        assert(x =~= y);
    }
    if x.len() > 0 && y.len() > 0 && x[0] == y[0] {
        lemma_lex_zero(x.drop_first(), y.drop_first());
        if x.drop_first() == y.drop_first() {
            assert(x =~= seq![x[0]] + x.drop_first());
            assert(y =~= seq![y[0]] + y.drop_first());
        }
    }
}

/// The order is transitive.
pub proof fn lemma_lex_trans(x: Seq<char>, y: Seq<char>, z: Seq<char>)
    requires
        lex_lt(x, y),
        lex_lt(y, z),
    ensures
        lex_lt(x, z),
    decreases x.len(),
{
    if x.len() > 0 && y.len() > 0 && z.len() > 0 && x[0] == y[0] && y[0] == z[0] {
        lemma_lex_trans(x.drop_first(), y.drop_first(), z.drop_first());
    }
}

/// Two distinct strings are ordered one way or the other.
pub proof fn lemma_lex_total(x: Seq<char>, y: Seq<char>)
    requires
        x != y,
    ensures
        lex_lt(x, y) || lex_lt(y, x),
{
    lemma_lex_antisym(x, y);
    lemma_lex_zero(x, y);
}

/// Whether `a` comes strictly before `b`.
pub fn str_lt(a: &str, b: &str) -> (r: bool)
    ensures
        r == lex_lt(a@, b@),
{
    let va = to_chars(a);
    let vb = to_chars(b);
    assert(va@.subrange(0, va@.len() as int) =~= va@);
    assert(vb@.subrange(0, vb@.len() as int) =~= vb@);
    lex_order_range(&va, 0, va.len(), &vb, 0, vb.len()) == -1
}

/// Two strictly sorted sequences of the same strings are equal.
pub proof fn lemma_sorted_unique(s: Seq<Seq<char>>, t: Seq<Seq<char>>)
    requires
        strictly_sorted(s),
        strictly_sorted(t),
        s.to_set() == t.to_set(),
    ensures
        s == t,
    decreases s.len(),
{
    if s.len() == 0 {
        if t.len() > 0 {
            assert(t.to_set().contains(t[0]));
            assert(!s.to_set().contains(t[0]));
        }
    } else if t.len() == 0 {
        assert(s.to_set().contains(s[0]));
    } else {
        // The least of each is the least of the shared set.
        assert(s.to_set().contains(s[0]));
        assert(t.to_set().contains(t[0]));
        let i = choose|i: int| 0 <= i < t.len() && t[i] == s[0];
        let j = choose|j: int| 0 <= j < s.len() && s[j] == t[0];
        if i > 0 {
            assert(lex_lt(t[0], t[i]));
            if j > 0 {
                assert(lex_lt(s[0], s[j]));
                lemma_lex_trans(s[0], t[0], s[0]);
                lemma_lex_antisym(s[0], s[0]);
            } else {
                lemma_lex_antisym(s[0], s[0]);
            }
        } else if j > 0 {
            assert(lex_lt(s[0], s[j]));
            lemma_lex_antisym(s[0], s[0]);
        }
        assert(s[0] == t[0]);
        let s1 = s.drop_first();
        let t1 = t.drop_first();
        assert forall|x: Seq<char>| s1.to_set().contains(x) implies t1.to_set().contains(x) by {
            let k = choose|k: int| 0 <= k < s1.len() && s1[k] == x;
            assert(s[k + 1] == x);
            assert(lex_lt(s[0], s[k + 1]));
            assert(s.to_set().contains(x));
            let m = choose|m: int| 0 <= m < t.len() && t[m] == x;
            if m == 0 {
                lemma_lex_antisym(x, x);
            }
            assert(t1[m - 1] == x);
        }
        assert forall|x: Seq<char>| t1.to_set().contains(x) implies s1.to_set().contains(x) by {
            let k = choose|k: int| 0 <= k < t1.len() && t1[k] == x;
            assert(t[k + 1] == x);
            assert(lex_lt(t[0], t[k + 1]));
            assert(t.to_set().contains(x));
            let m = choose|m: int| 0 <= m < s.len() && s[m] == x;
            if m == 0 {
                lemma_lex_antisym(x, x);
            }
            assert(s1[m - 1] == x);
        }
        assert(s1.to_set() =~= t1.to_set());
        lemma_sorted_unique(s1, t1);
        assert(s =~= seq![s[0]] + s1);
        assert(t =~= seq![t[0]] + t1);
    }
}

/// The distinct strings of `v`, sorted.
pub fn sorted_distinct(v: &Vec<String>) -> (r: Vec<String>)
    ensures
        strictly_sorted(views(r@)),
        views(r@).to_set() == views(v@).to_set(),
{
    let mut out: Vec<String> = Vec::new();
    let mut i: usize = 0;
    while i < v.len()
        invariant
            i <= v@.len(),
            strictly_sorted(views(out@)),
            views(out@).to_set() == views(v@).take(i as int).to_set(),
        decreases v@.len() - i,
    {
        let x = &v[i];
        let ghost o = views(out@);
        // The first position whose string is not before `x`.
        let mut p: usize = 0;
        while p < out.len() && str_lt(out[p].as_str(), x.as_str())
            invariant
                p <= out@.len(),
                o == views(out@),
                forall|k: int| 0 <= k < p ==> lex_lt(#[trigger] o[k], x@),
            decreases out@.len() - p,
        {
            p = p + 1;
        }
        assert(views(v@).take(i + 1) =~= views(v@).take(i as int).push(x@));
        proof {
            views(v@).take(i as int).lemma_push_to_set_commute(x@);
        }
        if p < out.len() && eq_strings(&out[p], x) {
            assert(o.to_set().contains(x@)) by {
                assert(o[p as int] == x@);
            }
            assert(o.to_set().insert(x@) =~= o.to_set());
        } else {
            proof {
                if p < o.len() {
                    lemma_lex_antisym(o[p as int], x@);
                    lemma_lex_zero(o[p as int], x@);
                    assert(lex_lt(x@, o[p as int]));
                }
            }
            out.insert(p, x.clone());
            let ghost n = views(out@);
            assert(n =~= o.insert(p as int, x@));
            assert forall|a: int, b: int| 0 <= a < b < n.len() implies lex_lt(
                #[trigger] n[a],
                #[trigger] n[b],
            ) by {
                if b < p {
                    assert(n[a] == o[a] && n[b] == o[b]);
                } else if b == p {
                    assert(n[a] == o[a]);
                } else if a == p {
                    assert(n[b] == o[b - 1]);
                    if b - 1 > p {
                        assert(lex_lt(o[p as int], o[b - 1]));
                        lemma_lex_trans(x@, o[p as int], o[b - 1]);
                    }
                } else if a < p {
                    assert(n[a] == o[a] && n[b] == o[b - 1]);
                } else {
                    assert(n[a] == o[a - 1] && n[b] == o[b - 1]);
                }
            }
            assert forall|y: Seq<char>| n.to_set().contains(y) <==> o.to_set().insert(
                x@,
            ).contains(y) by {
                if n.to_set().contains(y) {
                    let k = choose|k: int| 0 <= k < n.len() && n[k] == y;
                    if k < p {
                        assert(o[k] == y);
                    } else if k > p {
                        assert(o[k - 1] == y);
                    }
                }
                if o.to_set().contains(y) {
                    let k = choose|k: int| 0 <= k < o.len() && o[k] == y;
                    if k < p {
                        assert(n[k] == y);
                    } else {
                        assert(n[k + 1] == y);
                    }
                }
                if y == x@ {
                    assert(n[p as int] == y);
                }
            }
            assert(n.to_set() =~= o.to_set().insert(x@));
        }
        i = i + 1;
    }
    assert(views(v@).take(v@.len() as int) =~= views(v@));
    out
}

/// Whether two strings are equal.
fn eq_strings(a: &String, b: &String) -> (r: bool)
    ensures
        r == (a@ == b@),
{
    crate::text::eq_str(a.as_str(), b.as_str())
}

} // verus!
