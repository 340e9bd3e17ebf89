//! The forge adapters' shared types: the portable metadata fields,
//! the error classes, provider visibilities, and host extraction from
//! remote URLs.
//!
//! The HTTP calls to GitHub, Codeberg and GitLab are made by the
//! program around this library.

use vstd::prelude::*;

use crate::text::{
    concat, eq_str, find_char, first_index, lowercase, string_of_range, to_chars, to_lowercase,
    trim, trim_range, trim_str, ascii_lower, is_ascii_char, char_to_ascii_lower, ascii_upper,
    ascii_upper_char, ascii_lower_char, is_ws, trim_start, trim_end,
};
use crate::v5::config::RepoRef;

verus! {

/// Portable metadata fields intersected across GitHub/Codeberg/GitLab.
#[derive(Debug, Clone, Copy, PartialEq, Eq, Structural)]
pub enum DriftFieldKind {
    DefaultBranch,
    Description,
    Archived,
    Visibility,
}

/// The wire name of a field.
pub open spec fn drift_field_name(k: DriftFieldKind) -> Seq<char> {
    match k {
        DriftFieldKind::DefaultBranch => "default_branch"@,
        DriftFieldKind::Description => "description"@,
        DriftFieldKind::Archived => "archived"@,
        DriftFieldKind::Visibility => "visibility"@,
    }
}

impl DriftFieldKind {
    /// Wire-surface name for this field (`snake_case`).
    pub fn as_str(self) -> (s: &'static str)
        ensures
            s@ == drift_field_name(self),
    {
        match self {
            DriftFieldKind::DefaultBranch => "default_branch",
            DriftFieldKind::Description => "description",
            DriftFieldKind::Archived => "archived",
            DriftFieldKind::Visibility => "visibility",
        }
    }

    /// Every variant, in the alphabetical order of their names.
    pub fn all() -> (r: [DriftFieldKind; 4])
        ensures
            r@ == seq![
                DriftFieldKind::Archived,
                DriftFieldKind::DefaultBranch,
                DriftFieldKind::Description,
                DriftFieldKind::Visibility,
            ],
    {
        let r = [
            DriftFieldKind::Archived,
            DriftFieldKind::DefaultBranch,
            DriftFieldKind::Description,
            DriftFieldKind::Visibility,
        ];
        assert(r@ =~= seq![
            DriftFieldKind::Archived,
            DriftFieldKind::DefaultBranch,
            DriftFieldKind::Description,
            DriftFieldKind::Visibility,
        ]);
        r
    }
}

/// Read-side metadata: all four portable fields.
#[derive(Debug, Clone, Default)]
pub struct ForgeMetadata {
    pub default_branch: String,
    pub description: String,
    pub archived: bool,
    /// `public`/`private` (GitHub/Codeberg) or
    /// `public`/`internal`/`private` (GitLab).
    pub visibility: String,
}

/// Closed error class set.
#[derive(Debug, Clone, Copy, PartialEq, Eq, Structural)]
pub enum ForgeErrorClass {
    NotFound,
    Auth,
    Network,
    UnsupportedField,
    RateLimited,
    /// The repo already exists on the remote.
    Conflict,
    /// The provider lacks the requested visibility variant.
    UnsupportedVisibility,
}

/// The wire name of an error class.
pub open spec fn class_name(c: ForgeErrorClass) -> Seq<char> {
    match c {
        ForgeErrorClass::NotFound => "not_found"@,
        ForgeErrorClass::Auth => "auth"@,
        ForgeErrorClass::Network => "network"@,
        ForgeErrorClass::UnsupportedField => "unsupported_field"@,
        ForgeErrorClass::RateLimited => "rate_limited"@,
        ForgeErrorClass::Conflict => "conflict"@,
        ForgeErrorClass::UnsupportedVisibility => "unsupported_visibility"@,
    }
}

impl ForgeErrorClass {
    /// The wire name of the class.
    pub fn as_str(self) -> (s: &'static str)
        ensures
            s@ == class_name(self),
    {
        match self {
            ForgeErrorClass::NotFound => "not_found",
            ForgeErrorClass::Auth => "auth",
            ForgeErrorClass::Network => "network",
            ForgeErrorClass::UnsupportedField => "unsupported_field",
            ForgeErrorClass::RateLimited => "rate_limited",
            ForgeErrorClass::Conflict => "conflict",
            ForgeErrorClass::UnsupportedVisibility => "unsupported_visibility",
        }
    }
}

/// Typed error carried at the adapter boundary.
#[derive(Debug, Clone)]
pub struct ForgePortError {
    pub class: ForgeErrorClass,
    pub message: String,
}

impl ForgePortError {
    pub fn new(class: ForgeErrorClass, message: &str) -> (e: ForgePortError)
        ensures
            e.class == class,
            e.message@ == message@,
    {
        ForgePortError { class, message: message.to_owned() }
    }

    pub fn not_found(msg: &str) -> (e: ForgePortError)
        ensures
            e.class == ForgeErrorClass::NotFound,
            e.message@ == msg@,
    {
        Self::new(ForgeErrorClass::NotFound, msg)
    }

    pub fn auth(msg: &str) -> (e: ForgePortError)
        ensures
            e.class == ForgeErrorClass::Auth,
            e.message@ == msg@,
    {
        Self::new(ForgeErrorClass::Auth, msg)
    }

    pub fn network(msg: &str) -> (e: ForgePortError)
        ensures
            e.class == ForgeErrorClass::Network,
            e.message@ == msg@,
    {
        Self::new(ForgeErrorClass::Network, msg)
    }

    pub fn unsupported_field(msg: &str) -> (e: ForgePortError)
        ensures
            e.class == ForgeErrorClass::UnsupportedField,
            e.message@ == msg@,
    {
        Self::new(ForgeErrorClass::UnsupportedField, msg)
    }

    pub fn rate_limited(msg: &str) -> (e: ForgePortError)
        ensures
            e.class == ForgeErrorClass::RateLimited,
            e.message@ == msg@,
    {
        Self::new(ForgeErrorClass::RateLimited, msg)
    }

    pub fn conflict(msg: &str) -> (e: ForgePortError)
        ensures
            e.class == ForgeErrorClass::Conflict,
            e.message@ == msg@,
    {
        Self::new(ForgeErrorClass::Conflict, msg)
    }

    pub fn unsupported_visibility(msg: &str) -> (e: ForgePortError)
        ensures
            e.class == ForgeErrorClass::UnsupportedVisibility,
            e.message@ == msg@,
    {
        Self::new(ForgeErrorClass::UnsupportedVisibility, msg)
    }

    /// The error as `"<class>: <message>"`.
    pub fn describe(&self) -> (s: String)
        ensures
            s@ == class_name(self.class) + ": "@ + self.message@,
    {
        let a = concat(self.class.as_str(), ": ");
        concat(a.as_str(), self.message.as_str())
    }
}

/// Visibility of a repo on its provider.
#[derive(Debug, Clone, Copy, PartialEq, Eq, Structural)]
pub enum ProviderVisibility {
    Public,
    Private,
    Internal,
}

/// The wire name of a visibility.
pub open spec fn visibility_name(v: ProviderVisibility) -> Seq<char> {
    match v {
        ProviderVisibility::Public => "public"@,
        ProviderVisibility::Private => "private"@,
        ProviderVisibility::Internal => "internal"@,
    }
}

/// What `ProviderVisibility::parse` yields: the trimmed, ASCII-lowercased
/// name, or the error naming it.
pub open spec fn parse_visibility(raw: Seq<char>) -> Result<ProviderVisibility, Seq<char>> {
    let k = ascii_lower(trim(raw));
    if k == "public"@ {
        Ok(ProviderVisibility::Public)
    } else if k == "private"@ {
        Ok(ProviderVisibility::Private)
    } else if k == "internal"@ {
        Ok(ProviderVisibility::Internal)
    } else {
        Err("invalid visibility '"@ + k + "'; allowed: public, private, internal"@)
    }
}

proof fn lemma_trim_start_front(s: Seq<char>)
    ensures
        trim_start(s).len() == 0 || !is_ws(trim_start(s)[0]),
    decreases s.len(),
{
    if s.len() > 0 && is_ws(s[0]) {
        lemma_trim_start_front(s.drop_first());
    }
}

proof fn lemma_trim_end_prefix(s: Seq<char>)
    ensures
        trim_end(s).len() <= s.len(),
        trim_end(s) =~= s.take(trim_end(s).len() as int),
        trim_end(s).len() == 0 || !is_ws(trim_end(s).last()),
    decreases s.len(),
{
    if s.len() > 0 && is_ws(s.last()) {
        lemma_trim_end_prefix(s.drop_last());
        assert(s.drop_last().take(trim_end(s).len() as int) =~= s.take(trim_end(s).len() as int));
    }
}

/// Whether `t` neither starts nor ends with whitespace.
pub open spec fn trimmed(t: Seq<char>) -> bool {
    t.len() == 0 || (!is_ws(t[0]) && !is_ws(t.last()))
}

proof fn lemma_trim_is_trimmed(s: Seq<char>)
    ensures
        trimmed(trim(s)),
{
    lemma_trim_start_front(s);
    lemma_trim_end_prefix(trim_start(s));
    let t = trim(s);
    if t.len() > 0 {
        assert(t[0] == trim_start(s)[0]);
    }
}

proof fn lemma_trim_of_trimmed(t: Seq<char>)
    requires
        trimmed(t),
    ensures
        trim(t) == t,
{
    assert(trim_start(t) == t);
    assert(trim_end(t) == t);
}

proof fn lemma_upper_char(c: char)
    ensures
        is_ws(ascii_upper_char(c)) == is_ws(c),
        ascii_lower_char(ascii_upper_char(c)) == ascii_lower_char(c),
{
}

proof fn lemma_no_ws_trim(s: Seq<char>)
    requires
        forall|i: int| 0 <= i < s.len() ==> !is_ws(#[trigger] s[i]),
    ensures
        trim(s) == s,
{
    if s.len() > 0 {
        assert(!is_ws(s[0]));
        assert(!is_ws(s[s.len() - 1]));
    }
    lemma_trim_of_trimmed(s);
}

/// A visibility's wire name parses back to it.
proof fn lemma_name_parses(v: ProviderVisibility)
    ensures
        parse_visibility(visibility_name(v)) == Ok::<ProviderVisibility, Seq<char>>(v),
{
    reveal_strlit("public");
    reveal_strlit("private");
    reveal_strlit("internal");
    let n = visibility_name(v);
    lemma_no_ws_trim(n);
    assert(ascii_lower(n) =~= n);
    assert("public"@[1] != "private"@[1]);
    assert("public"@.len() != "internal"@.len());
    assert("private"@[0] != "internal"@[0]);
}

/// Parsing a visibility ignores surrounding whitespace and ASCII case:
/// each visibility's wire name parses back to it; a string parses as its
/// trimmed, upper-cased form does; and it parses at all exactly when its
/// trimmed, lower-cased form is `public`, `private` or `internal`.
pub proof fn lemma_parse_visibility_laws(v: ProviderVisibility, s: Seq<char>)
    ensures
        parse_visibility(visibility_name(v)) == Ok::<ProviderVisibility, Seq<char>>(v),
        parse_visibility(s) == parse_visibility(ascii_upper(trim(s))),
        parse_visibility(s) is Ok <==> {
            let k = ascii_lower(trim(s));
            k == "public"@ || k == "private"@ || k == "internal"@
        },
{
    lemma_name_parses(v);
    let t = trim(s);
    let u = ascii_upper(t);
    lemma_trim_is_trimmed(s);
    assert forall|i: int| 0 <= i < t.len() implies is_ws(#[trigger] u[i]) == is_ws(t[i])
        && ascii_lower_char(u[i]) == ascii_lower_char(t[i]) by {
        lemma_upper_char(t[i]);
    }
    if t.len() > 0 {
        assert(u[0] == ascii_upper_char(t[0]));
        assert(u.last() == ascii_upper_char(t.last()));
    }
    lemma_trim_of_trimmed(u);
    assert(ascii_lower(u) =~= ascii_lower(t));
}

/// `str::to_ascii_lowercase`.
fn ascii_lowercase(s: &str) -> (r: String)
    ensures
        r@ == ascii_lower(s@),
{
    let v = to_chars(s);
    let mut out = String::new();
    let mut i: usize = 0;
    while i < v.len()
        invariant
            i <= v@.len(),
            v@ == s@,
            out@ == ascii_lower(s@.take(i as int)),
        decreases v@.len() - i,
    {
        crate::text::push_char(&mut out, char_to_ascii_lower(v[i]));
        assert(ascii_lower(s@.take(i + 1)) =~= ascii_lower(s@.take(i as int)).push(
            crate::text::ascii_lower_char(s@[i as int]),
        ));
        i = i + 1;
    }
    assert(s@.take(s@.len() as int) =~= s@);
    out
}

impl ProviderVisibility {
    /// The wire name.
    pub fn as_str(self) -> (s: &'static str)
        ensures
            s@ == visibility_name(self),
    {
        match self {
            ProviderVisibility::Public => "public",
            ProviderVisibility::Private => "private",
            ProviderVisibility::Internal => "internal",
        }
    }

    /// Case-insensitive parse of `public` / `private` / `internal`.
    pub fn parse(raw: &str) -> (r: Result<ProviderVisibility, String>)
        ensures
            match r {
                Ok(v) => parse_visibility(raw@) == Ok::<ProviderVisibility, Seq<char>>(v),
                Err(e) => parse_visibility(raw@) == Err::<ProviderVisibility, Seq<char>>(e@),
            },
    {
        let t = trim_str(raw);
        let k = ascii_lowercase(t.as_str());
        if eq_str(k.as_str(), "public") {
            Ok(ProviderVisibility::Public)
        } else if eq_str(k.as_str(), "private") {
            Ok(ProviderVisibility::Private)
        } else if eq_str(k.as_str(), "internal") {
            Ok(ProviderVisibility::Internal)
        } else {
            let a = concat("invalid visibility '", k.as_str());
            Err(concat(a.as_str(), "'; allowed: public, private, internal"))
        }
    }
}

/// The index of the last `c` in `s`, if any.
pub open spec fn last_index(s: Seq<char>, c: char) -> Option<int>
    decreases s.len(),
{
    if s.len() == 0 {
        None
    } else if s.last() == c {
        Some(s.len() - 1)
    } else {
        last_index(s.drop_last(), c)
    }
}

/// The index of the first `:` or `/` in `s`, if any.
pub open spec fn first_colon_or_slash(s: Seq<char>) -> Option<int>
    decreases s.len(),
{
    if s.len() == 0 {
        None
    } else if s[0] == ':' || s[0] == '/' {
        Some(0)
    } else {
        match first_colon_or_slash(s.drop_first()) {
            Some(i) => Some(i + 1),
            None => None,
        }
    }
}

/// The host of an authority (`user@host:port`): past its last `@`, up
/// to the first `:` or `/`, lowercased.
pub open spec fn authority_host(rest: Seq<char>) -> Seq<char> {
    let after = match last_index(rest, '@') {
        Some(i) => rest.skip(i + 1),
        None => rest,
    };
    let end = match first_colon_or_slash(after) {
        Some(j) => j,
        None => after.len() as int,
    };
    lowercase(after.take(end))
}

/// The host part after a scheme: the authority is what comes before the
/// first `/` (an `@` in the path names no user), and the host is its
/// part past a `user@` prefix, up to a `:port`, lowercased.
pub open spec fn host_segment_spec(rest: Seq<char>) -> Seq<char> {
    match first_index(rest, '/') {
        Some(j) => authority_host(rest.take(j)),
        None => authority_host(rest),
    }
}

/// The schemes whose URLs name their host right after `://`.
pub open spec fn scheme_rest(t: Seq<char>) -> Option<Seq<char>> {
    if "https://"@.is_prefix_of(t) {
        Some(t.skip(8))
    } else if "http://"@.is_prefix_of(t) {
        Some(t.skip(7))
    } else if "ssh://"@.is_prefix_of(t) {
        Some(t.skip(6))
    } else if "git://"@.is_prefix_of(t) {
        Some(t.skip(6))
    } else {
        None
    }
}

/// The host of an SCP-like `user@host:path`: between the first `@` and
/// the next `:`, when non-empty and without `/`.
pub open spec fn scp_host(t: Seq<char>) -> Option<Seq<char>> {
    match first_index(t, '@') {
        None => None,
        Some(at) => {
            let after = t.skip(at + 1);
            match first_index(after, ':') {
                None => None,
                Some(c) => {
                    let h = after.take(c);
                    if h.len() > 0 && first_index(h, '/') is None {
                        Some(lowercase(h))
                    } else {
                        None
                    }
                },
            }
        },
    }
}

/// The host of a remote URL, lowercased: `https://host/…`,
/// `http://host/…`, `ssh://user@host/…`, `git://host/…`, or the
/// SCP-like `git@host:owner/name…`.
pub open spec fn url_host(url: Seq<char>) -> Option<Seq<char>> {
    let t = trim(url);
    match scheme_rest(t) {
        Some(rest) => Some(host_segment_spec(rest)),
        None => scp_host(t),
    }
}

/// The host of the URL rest `v[lo..hi]`: of its authority, which ends
/// at the first `/`.
fn host_segment(v: &Vec<char>, lo: usize, hi: usize) -> (s: String)
    requires
        lo <= hi <= v.len(),
    ensures
        s@ == host_segment_spec(v@.subrange(lo as int, hi as int)),
{
    let ghost rest = v@.subrange(lo as int, hi as int);
    match find_char(v, lo, hi, '/') {
        Some(j) => {
            assert(v@.subrange(lo as int, j as int) =~= rest.take(j - lo));
            authority_segment(v, lo, j)
        },
        None => authority_segment(v, lo, hi),
    }
}

/// The host of the authority `v[lo..hi]` past its userinfo.
fn authority_segment(v: &Vec<char>, lo: usize, hi: usize) -> (s: String)
    requires
        lo <= hi <= v.len(),
    ensures
        s@ == authority_host(v@.subrange(lo as int, hi as int)),
{
    let ghost rest = v@.subrange(lo as int, hi as int);
    // The last `@`.
    let mut k = hi;
    while k > lo && v[k - 1] != '@'
        invariant
            lo <= k <= hi <= v.len(),
            last_index(rest, '@') == last_index(v@.subrange(lo as int, k as int), '@'),
            rest == v@.subrange(lo as int, hi as int),
        decreases k - lo,
    {
        assert(v@.subrange(lo as int, k as int).drop_last() =~= v@.subrange(lo as int, k - 1));
        k = k - 1;
    }
    let start = if k > lo {
        assert(last_index(v@.subrange(lo as int, k as int), '@') == Some((k - 1 - lo) as int));
        assert(rest.skip(k - lo) =~= v@.subrange(k as int, hi as int));
        k
    } else {
        assert(last_index(v@.subrange(lo as int, k as int), '@') is None);
        lo
    };
    let ghost after = v@.subrange(start as int, hi as int);
    // The first `:` or `/`.
    let mut e = start;
    while e < hi && v[e] != ':' && v[e] != '/'
        invariant
            start <= e <= hi <= v.len(),
            after == v@.subrange(start as int, hi as int),
            first_colon_or_slash(after) == match first_colon_or_slash(v@.subrange(e as int, hi as int)) {
                Some(j) => Some(j + (e - start)),
                None => None,
            },
        decreases hi - e,
    {
        assert(v@.subrange(e as int, hi as int).drop_first() =~= v@.subrange(e + 1, hi as int));
        e = e + 1;
    }
    assert(after.take(e - start) =~= v@.subrange(start as int, e as int));
    let h = string_of_range(v, start, e);
    to_lowercase(h.as_str())
}

/// Extract the host of a remote URL. `None` for anything else (such as
/// a relative path).
pub fn extract_host(url: &str) -> (r: Option<String>)
    ensures
        match r {
            Some(h) => url_host(url@) == Some(h@),
            None => url_host(url@) is None,
        },
{
    let v = to_chars(url);
    assert(v@.subrange(0, v@.len() as int) =~= v@);
    let (a, b) = trim_range(&v, 0, v.len());
    let ghost t = trim(url@);
    assert(v@.subrange(a as int, b as int) == t);
    let tv = to_chars(string_of_range(&v, a, b).as_str());
    let n = tv.len();
    assert(tv@.subrange(0, n as int) =~= t);
    proof {
        reveal_strlit("https://");
        reveal_strlit("http://");
        reveal_strlit("ssh://");
        reveal_strlit("git://");
    }
    let https = to_chars("https://");
    let http = to_chars("http://");
    let ssh = to_chars("ssh://");
    let git = to_chars("git://");
    if crate::text::has_prefix_at(&tv, 0, n, &https) {
        assert(tv@.subrange(8, n as int) =~= t.skip(8));
        return Some(host_segment(&tv, 8, n));
    }
    if crate::text::has_prefix_at(&tv, 0, n, &http) {
        assert(tv@.subrange(7, n as int) =~= t.skip(7));
        return Some(host_segment(&tv, 7, n));
    }
    if crate::text::has_prefix_at(&tv, 0, n, &ssh) {
        assert(tv@.subrange(6, n as int) =~= t.skip(6));
        return Some(host_segment(&tv, 6, n));
    }
    if crate::text::has_prefix_at(&tv, 0, n, &git) {
        assert(tv@.subrange(6, n as int) =~= t.skip(6));
        return Some(host_segment(&tv, 6, n));
    }
    match find_char(&tv, 0, n, '@') {
        None => None,
        Some(at) => {
            let ghost after = t.skip(at + 1);
            assert(tv@.subrange(at + 1, n as int) =~= after);
            match find_char(&tv, at + 1, n, ':') {
                None => None,
                Some(c) => {
                    let ghost h = after.take(c - (at + 1));
                    assert(tv@.subrange(at + 1, c as int) =~= h);
                    if c > at + 1 {
                        match find_char(&tv, at + 1, c, '/') {
                            Some(_) => None,
                            None => {
                                let hs = string_of_range(&tv, at + 1, c);
                                Some(to_lowercase(hs.as_str()))
                            },
                        }
                    } else {
                        None
                    }
                },
            }
        },
    }
}

/// GitHub adapter, pinned to `api.github.com`.
#[derive(Debug, Clone)]
pub struct GithubAdapter {
    api_host: String,
}

impl GithubAdapter {
    /// The API host the adapter talks to.
    pub closed spec fn host_view(&self) -> Seq<char> {
        self.api_host@
    }

    pub fn new() -> (a: GithubAdapter)
        ensures
            a.host_view() == "api.github.com"@,
    {
        GithubAdapter { api_host: "api.github.com".to_owned() }
    }

    /// The API URL of a repo.
    pub fn api_url(&self, repo_ref: &RepoRef) -> (s: String)
        ensures
            s@ == "https://"@ + self.host_view() + "/repos/"@ + repo_ref.org.0@ + "/"@
                + repo_ref.name.0@,
    {
        let a = concat("https://", self.api_host.as_str());
        let b = concat(a.as_str(), "/repos/");
        let c = concat(b.as_str(), repo_ref.org.0.as_str());
        let d = concat(c.as_str(), "/");
        concat(d.as_str(), repo_ref.name.0.as_str())
    }
}

/// Codeberg (Gitea/Forgejo) adapter, defaulting to `codeberg.org`.
#[derive(Debug, Clone)]
pub struct CodebergAdapter {
    host: String,
}

impl CodebergAdapter {
    /// The host the adapter talks to.
    pub closed spec fn host_view(&self) -> Seq<char> {
        self.host@
    }

    pub fn new() -> (a: CodebergAdapter)
        ensures
            a.host_view() == "codeberg.org"@,
    {
        CodebergAdapter { host: "codeberg.org".to_owned() }
    }

    /// The API URL of a repo.
    pub fn api_url(&self, repo_ref: &RepoRef) -> (s: String)
        ensures
            s@ == "https://"@ + self.host_view() + "/api/v1/repos/"@ + repo_ref.org.0@ + "/"@
                + repo_ref.name.0@,
    {
        let a = concat("https://", self.host.as_str());
        let b = concat(a.as_str(), "/api/v1/repos/");
        let c = concat(b.as_str(), repo_ref.org.0.as_str());
        let d = concat(c.as_str(), "/");
        concat(d.as_str(), repo_ref.name.0.as_str())
    }
}

/// GitLab adapter; the host comes from each remote's URL.
#[derive(Debug, Clone, Copy)]
pub struct GitlabAdapter;

impl GitlabAdapter {
    pub fn new() -> (a: GitlabAdapter) {
        GitlabAdapter
    }
}

} // verus!
