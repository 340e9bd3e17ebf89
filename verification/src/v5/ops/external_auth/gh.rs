//! Reading the `gh` CLI's output.
//!
//! `gh auth status` prints (to stderr):
//!
//! ```text
//! github.com
//!   ✓ Logged in to github.com account hypermemetic (keyring)
//!   - Active account: true
//!   - Token: gho_*****
//!   - Token scopes: 'repo', 'read:org'
//! ```

use vstd::prelude::*;

use super::{ExternalAuthError, ExternalAuthProvider, ExternalAuthStatus};
use crate::text::{
    contains, contains_str, find_str, find_str_range, lines, lines_of, split, split_ranges,
    string_of_range, to_chars, trim, trim_range, trim_str, views,
};
use crate::v5::ops::git::{first_word, skip_word, word_len};

verus! {

/// What follows the first `pat` in `s`, up to the next `pat` (the
/// second piece of `s.split(pat)`).
pub open spec fn second_piece(s: Seq<char>, pat: Seq<char>) -> Option<Seq<char>> {
    match find_str(s, pat) {
        None => None,
        Some(p) => {
            let after = s.skip(p + pat.len());
            Some(
                match find_str(after, pat) {
                    Some(q) => after.take(q),
                    None => after,
                },
            )
        },
    }
}

/// `s` without leading and trailing `c` (`str::trim_matches`).
pub open spec fn strip_matches(s: Seq<char>, c: char) -> Seq<char>
    decreases s.len(),
{
    if s.len() > 0 && s[0] == c {
        strip_matches(s.drop_first(), c)
    } else if s.len() > 0 && s.last() == c {
        strip_matches(s.drop_last(), c)
    } else {
        s
    }
}

/// A scope as listed: trimmed, then without quotes.
pub open spec fn clean_scope(s: Seq<char>) -> Seq<char> {
    strip_matches(strip_matches(trim(s), '\''), '"')
}

/// The scopes of a `Token scopes:` list: comma-separated, cleaned,
/// empty ones dropped.
pub open spec fn scope_list(rest: Seq<char>) -> Seq<Seq<char>> {
    split(rest, ',').map_values(|p: Seq<char>| clean_scope(p)).filter(|x: Seq<char>| x.len() > 0)
}

/// What `gh auth status` output gives so far: user, host, scopes.
pub struct GhView {
    pub username: Option<Seq<char>>,
    pub host: Option<Seq<char>>,
    pub scopes: Seq<Seq<char>>,
}

/// The state after one line of `gh auth status` output.
pub open spec fn gh_step(st: GhView, raw: Seq<char>) -> GhView {
    let line = trim(raw);
    let st1 = if contains(line, "Logged in to"@) {
        match second_piece(line, "Logged in to"@) {
            None => st,
            Some(rest) => GhView {
                host: first_word(rest),
                username: match find_str(rest, "account "@) {
                    Some(p) => first_word(rest.skip(p + 8)),
                    None => st.username,
                },
                ..st
            },
        }
    } else {
        st
    };
    if "- Token scopes:"@.is_prefix_of(line) {
        GhView { scopes: scope_list(line.skip(15)), ..st1 }
    } else if "Token scopes:"@.is_prefix_of(line) {
        GhView { scopes: scope_list(line.skip(13)), ..st1 }
    } else {
        st1
    }
}

/// The state after the lines in order.
pub open spec fn gh_lines(ls: Seq<Seq<char>>) -> GhView
    decreases ls.len(),
{
    if ls.len() == 0 {
        GhView { username: None, host: None, scopes: seq![] }
    } else {
        gh_step(gh_lines(ls.drop_last()), ls.last())
    }
}

/// An optional string as plain values.
pub open spec fn opt_seq(o: Option<String>) -> Option<Seq<char>> {
    match o {
        Some(s) => Some(s@),
        None => None,
    }
}

/// The first word of `v[lo..hi]`, if any.
fn first_word_of(v: &Vec<char>, lo: usize, hi: usize) -> (r: Option<String>)
    requires
        lo <= hi <= v.len(),
    ensures
        opt_seq(r) == first_word(v@.subrange(lo as int, hi as int)),
{
    let a = crate::text::skip_ws_forward(v, lo, hi);
    if a == hi {
        return None;
    }
    let b = skip_word(v, a, hi);
    let ghost t = crate::text::trim_start(v@.subrange(lo as int, hi as int));
    assert(t.take(word_len(t) as int) =~= v@.subrange(a as int, b as int));
    Some(string_of_range(v, a, b))
}

/// The cleaned scope of `v[lo..hi]`.
fn clean_scope_of(v: &Vec<char>, lo: usize, hi: usize) -> (r: String)
    requires
        lo <= hi <= v.len(),
    ensures
        r@ == clean_scope(v@.subrange(lo as int, hi as int)),
{
    let (a0, b0) = trim_range(v, lo, hi);
    let (a1, b1) = strip_range(v, a0, b0, '\'');
    let (a2, b2) = strip_range(v, a1, b1, '"');
    string_of_range(v, a2, b2)
}

/// Bounds of `strip_matches(v[lo..hi], c)`.
fn strip_range(v: &Vec<char>, lo: usize, hi: usize, c: char) -> (r: (usize, usize))
    requires
        lo <= hi <= v.len(),
    ensures
        lo <= r.0 <= r.1 <= hi,
        v@.subrange(r.0 as int, r.1 as int) == strip_matches(v@.subrange(lo as int, hi as int), c),
{
    let mut a = lo;
    let mut b = hi;
    while a < b && (v[a] == c || v[b - 1] == c)
        invariant
            lo <= a <= b <= hi <= v.len(),
            strip_matches(v@.subrange(lo as int, hi as int), c) == strip_matches(
                v@.subrange(a as int, b as int),
                c,
            ),
        decreases b - a,
    {
        if v[a] == c {
            assert(v@.subrange(a as int, b as int).drop_first() =~= v@.subrange(a + 1, b as int));
            a = a + 1;
        } else {
            assert(v@.subrange(a as int, b as int).drop_last() =~= v@.subrange(a as int, b - 1));
            b = b - 1;
        }
    }
    (a, b)
}

/// The scopes listed in `v[lo..hi]`.
fn scope_list_of(v: &Vec<char>, lo: usize, hi: usize) -> (r: Vec<String>)
    requires
        lo <= hi <= v.len(),
    ensures
        views(r@) == scope_list(v@.subrange(lo as int, hi as int)),
{
    let ranges = split_ranges(v, lo, hi, ',');
    let ghost parts = split(v@.subrange(lo as int, hi as int), ',');
    let ghost cleaned = parts.map_values(|p: Seq<char>| clean_scope(p));
    let ghost pred = |x: Seq<char>| x.len() > 0;
    let mut out: Vec<String> = Vec::new();
    let mut k: usize = 0;
    while k < ranges.len()
        invariant
            k <= ranges@.len(),
            ranges@.len() == parts.len(),
            parts == split(v@.subrange(lo as int, hi as int), ','),
            cleaned == parts.map_values(|p: Seq<char>| clean_scope(p)),
            pred == (|x: Seq<char>| x.len() > 0),
            lo <= hi <= v@.len(),
            forall|j: int|
                0 <= j < ranges@.len() ==> lo <= #[trigger] ranges@[j].0 <= ranges@[j].1 <= hi
                    && v@.subrange(ranges@[j].0 as int, ranges@[j].1 as int) == parts[j],
            views(out@) == cleaned.take(k as int).filter(pred),
        decreases ranges@.len() - k,
    {
        proof {
            reveal(Seq::filter);
            assert(cleaned.take(k + 1).drop_last() =~= cleaned.take(k as int));
        }
        let (a, b) = ranges[k];
        let s = clean_scope_of(v, a, b);
        if !s.as_str().is_empty() {
            let ghost prev = out@;
            out.push(s);
            assert(views(out@) =~= views(prev).push(cleaned[k as int]));
        }
        assert(views(out@) =~= cleaned.take(k + 1).filter(pred));
        k = k + 1;
    }
    assert(cleaned.take(cleaned.len() as int) =~= cleaned);
    out
}

/// Parse `gh auth status` output of a logged-in CLI: the host and
/// account of the last `Logged in to <host> account <user>` line, and
/// the scopes of the last `Token scopes:` line.
pub fn parse_status(text: &str) -> (s: ExternalAuthStatus)
    ensures
        s.provider == ExternalAuthProvider::Github,
        s.logged_in,
        opt_seq(s.username) == gh_lines(lines(text@)).username,
        opt_seq(s.host) == gh_lines(lines(text@)).host,
        views(s.scopes@) == gh_lines(lines(text@)).scopes,
{
    let ls = lines_of(text);
    let ghost lv = lines(text@);
    let mut username: Option<String> = None;
    let mut host: Option<String> = None;
    let mut scopes: Vec<String> = Vec::new();
    let logged = to_chars("Logged in to");
    let account = to_chars("account ");
    let dash_scopes = to_chars("- Token scopes:");
    let scopes_key = to_chars("Token scopes:");
    proof {
        reveal_strlit("Logged in to");
        reveal_strlit("account ");
        reveal_strlit("- Token scopes:");
        reveal_strlit("Token scopes:");
    }
    let mut i: usize = 0;
    while i < ls.len()
        invariant
            i <= ls@.len(),
            views(ls@) == lv,
            logged@ == "Logged in to"@,
            account@ == "account "@,
            dash_scopes@ == "- Token scopes:"@,
            scopes_key@ == "Token scopes:"@,
            ({
                let g = gh_lines(lv.take(i as int));
                &&& opt_seq(username) == g.username
                &&& opt_seq(host) == g.host
                &&& views(scopes@) == g.scopes
            }),
        decreases ls@.len() - i,
    {
        assert(lv.take(i + 1).drop_last() =~= lv.take(i as int));
        assert(lv[i as int] == ls@[i as int]@);
        proof {
            reveal_strlit("Logged in to");
            reveal_strlit("account ");
            reveal_strlit("- Token scopes:");
            reveal_strlit("Token scopes:");
        }
        let raw = to_chars(ls[i].as_str());
        assert(raw@.subrange(0, raw@.len() as int) =~= raw@);
        let (a, b) = trim_range(&raw, 0, raw.len());
        let ghost line = trim(lv[i as int]);
        assert(raw@.subrange(a as int, b as int) == line);
        match find_str_range(&raw, a, b, &logged) {
            Some(p) => {
                proof {
                    crate::text::lemma_find_from_spec(line, logged@, 0);
                }
                let start = p + logged.len();
                let ghost after = line.skip((p - a) + 12);
                assert(raw@.subrange(start as int, b as int) =~= after);
                let end = match find_str_range(&raw, start, b, &logged) {
                    Some(q) => q,
                    None => b,
                };
                let ghost rest = raw@.subrange(start as int, end as int);
                assert(second_piece(line, "Logged in to"@) == Some(rest)) by {
                    match find_str(after, logged@) {
                        Some(q) => {
                            assert(after.take(q) =~= rest);
                        },
                        None => {
                            assert(after =~= rest);
                        },
                    }
                }
                host = first_word_of(&raw, start, end);
                match find_str_range(&raw, start, end, &account) {
                    Some(q) => {
                        proof {
                            crate::text::lemma_find_from_spec(rest, account@, 0);
                        }
                        assert(rest.skip((q - start) + 8) =~= raw@.subrange(q + 8, end as int));
                        username = first_word_of(&raw, q + 8, end);
                    },
                    None => {},
                }
            },
            None => {
                proof {
                    crate::text::lemma_find_from_spec(line, logged@, 0);
                    if contains(line, "Logged in to"@) {
                        let j = choose|j: int| crate::text::occurs_at(line, "Logged in to"@, j);
                        assert(0 <= j);
                    }
                }
            },
        }
        if crate::text::has_prefix_at(&raw, a, b, &dash_scopes) {
            assert(raw@.subrange(a + 15, b as int) =~= line.skip(15));
            scopes = scope_list_of(&raw, a + 15, b);
        } else if crate::text::has_prefix_at(&raw, a, b, &scopes_key) {
            assert(raw@.subrange(a + 13, b as int) =~= line.skip(13));
            scopes = scope_list_of(&raw, a + 13, b);
        }
        i = i + 1;
    }
    assert(lv.take(lv.len() as int) =~= lv);
    ExternalAuthStatus {
        provider: ExternalAuthProvider::Github,
        logged_in: true,
        username,
        host,
        scopes,
    }
}

/// The status `gh auth status` reports: logged out (nothing else) when
/// the command failed, else what its combined output says.
pub fn status_from_output(success: bool, combined: &str) -> (s: ExternalAuthStatus)
    ensures
        s.provider == ExternalAuthProvider::Github,
        s.logged_in == success,
        !success ==> s.username is None && s.host is None && s.scopes@.len() == 0,
        success ==> opt_seq(s.username) == gh_lines(lines(combined@)).username && opt_seq(s.host)
            == gh_lines(lines(combined@)).host && views(s.scopes@) == gh_lines(
            lines(combined@),
        ).scopes,
{
    if !success {
        return ExternalAuthStatus {
            provider: ExternalAuthProvider::Github,
            logged_in: false,
            username: None,
            host: None,
            scopes: Vec::new(),
        };
    }
    parse_status(combined)
}

/// What `gh auth token` gives: the trimmed token; not logged in when
/// the command failed saying so or printed nothing; else an invalid
/// response carrying its stderr.
pub fn token_from_output(success: bool, stderr: &str, stdout: &str) -> (r: Result<String, ExternalAuthError>)
    ensures
        !success ==> match r {
            Err(ExternalAuthError::NotLoggedIn { provider }) => provider
                == ExternalAuthProvider::Github && (contains(stderr@, "not logged"@) || contains(
                stderr@,
                "no auth"@,
            )),
            Err(ExternalAuthError::InvalidResponse(m)) => m@ == stderr@ && !contains(
                stderr@,
                "not logged"@,
            ) && !contains(stderr@, "no auth"@),
            _ => false,
        },
        success ==> match r {
            Ok(t) => t@ == trim(stdout@) && t@.len() > 0,
            Err(ExternalAuthError::NotLoggedIn { provider }) => provider
                == ExternalAuthProvider::Github && trim(stdout@).len() == 0,
            _ => false,
        },
{
    if !success {
        if contains_str(stderr, "not logged") || contains_str(stderr, "no auth") {
            return Err(ExternalAuthError::NotLoggedIn { provider: ExternalAuthProvider::Github });
        }
        return Err(ExternalAuthError::InvalidResponse(stderr.to_owned()));
    }
    let token = trim_str(stdout);
    if token.as_str().is_empty() {
        return Err(ExternalAuthError::NotLoggedIn { provider: ExternalAuthProvider::Github });
    }
    Ok(token)
}

/// The org names of `gh api /user/orgs` output: its trimmed non-empty
/// lines; not logged in when the command failed saying so; else a
/// network error carrying its stderr.
pub fn orgs_from_output(success: bool, stderr: &str, stdout: &str) -> (r: Result<Vec<String>, ExternalAuthError>)
    ensures
        !success ==> match r {
            Err(ExternalAuthError::NotLoggedIn { provider }) => provider
                == ExternalAuthProvider::Github && (contains(stderr@, "not logged"@) || contains(
                stderr@,
                "authentication required"@,
            )),
            Err(ExternalAuthError::Network(m)) => m@ == stderr@ && !contains(stderr@, "not logged"@)
                && !contains(stderr@, "authentication required"@),
            _ => false,
        },
        success ==> match r {
            Ok(v) => views(v@) == lines(stdout@).map_values(|l: Seq<char>| trim(l)).filter(
                |x: Seq<char>| x.len() > 0,
            ),
            _ => false,
        },
{
    if !success {
        if contains_str(stderr, "not logged") || contains_str(stderr, "authentication required") {
            return Err(ExternalAuthError::NotLoggedIn { provider: ExternalAuthProvider::Github });
        }
        return Err(ExternalAuthError::Network(stderr.to_owned()));
    }
    let ls = lines_of(stdout);
    let ghost trimmed = lines(stdout@).map_values(|l: Seq<char>| trim(l));
    let ghost pred = |x: Seq<char>| x.len() > 0;
    let mut out: Vec<String> = Vec::new();
    let mut i: usize = 0;
    while i < ls.len()
        invariant
            i <= ls@.len(),
            views(ls@) == lines(stdout@),
            trimmed == lines(stdout@).map_values(|l: Seq<char>| trim(l)),
            pred == (|x: Seq<char>| x.len() > 0),
            views(out@) == trimmed.take(i as int).filter(pred),
        decreases ls@.len() - i,
    {
        proof {
            reveal(Seq::filter);
            assert(trimmed.take(i + 1).drop_last() =~= trimmed.take(i as int));
        }
        let t = trim_str(ls[i].as_str());
        assert(t@ == trimmed[i as int]);
        if !t.as_str().is_empty() {
            let ghost prev = out@;
            out.push(t);
            assert(views(out@) =~= views(prev).push(trimmed[i as int]));
        }
        assert(views(out@) =~= trimmed.take(i + 1).filter(pred));
        i = i + 1;
    }
    assert(trimmed.take(trimmed.len() as int) =~= trimmed);
    Ok(out)
}

} // verus!
