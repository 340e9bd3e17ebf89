//! Registry version comparison and cabal field lookup.
//!
//! The HTTP queries against crates.io, Hackage and npm live with the
//! program around this library; what they return is compared here.

use vstd::prelude::*;

use std::cmp::Ordering;

use crate::doc::{get_spec, json_doc, parse_json, parse_toml, toml_doc, DocValue};
use crate::order::{lemma_lex_antisym, lemma_lex_zero, lex_order, lex_order_range};
use crate::text::{
    byte_len, byte_len_range, char_index_at_byte, char_index_at_byte_range, concat, lines,
    lines_of, lowercase, parse_u64, parse_u64_range, split, split_ranges, starts_with,
    unsigned_body, digits_value, is_digit,
    string_of_range, to_chars, to_lowercase, trim, trim_range, trim_str, eq_str,
};

verus! {

/// Errors of a registry query.
#[derive(Debug, Clone)]
pub enum RegistryError {
    Http { registry: String, name: String, message: String },
    Parse { registry: String, name: String, message: String },
}

impl RegistryError {
    pub fn code(&self) -> (s: &'static str)
        ensures
            s@ == (match self {
                RegistryError::Http { .. } => "registry_http"@,
                RegistryError::Parse { .. } => "registry_parse"@,
            }),
    {
        match self {
            RegistryError::Http { .. } => "registry_http",
            RegistryError::Parse { .. } => "registry_parse",
        }
    }

    /// The human-readable description of the error.
    pub fn message(&self) -> (s: String)
        ensures
            s@ == (match self {
                RegistryError::Http { registry, name, message } => "http error querying "@ + registry@ + " for "@
                    + name@ + ": "@ + message@,
                RegistryError::Parse { registry, name, message } => "unexpected response from "@ + registry@
                    + " for "@ + name@ + ": "@ + message@,
            }),
    {
        let (head, registry, name, message) = match self {
            RegistryError::Http { registry, name, message } => ("http error querying ", registry, name, message),
            RegistryError::Parse { registry, name, message } => ("unexpected response from ", registry, name, message),
        };
        let a = concat(head, registry.as_str());
        let b = concat(a.as_str(), " for ");
        let c = concat(b.as_str(), name.as_str());
        let d = concat(c.as_str(), ": ");
        concat(d.as_str(), message.as_str())
    }
}

/// Numeric order of two numbers, as -1, 0 or 1.
pub open spec fn num_order(m: u64, n: u64) -> int {
    if m < n {
        -1
    } else if n < m {
        1
    } else {
        0
    }
}

/// The `i`-th dot-separated segment, or `"0"` past the end.
pub open spec fn segment(p: Seq<Seq<char>>, i: int) -> Seq<char> {
    if 0 <= i < p.len() {
        p[i]
    } else {
        "0"@
    }
}

/// Two segments compare numerically when both parse as `u64`, else
/// lexicographically.
pub open spec fn segment_order(x: Seq<char>, y: Seq<char>) -> int {
    match (parse_u64(x), parse_u64(y)) {
        (Some(m), Some(n)) => num_order(m, n),
        _ => lex_order(x, y),
    }
}

/// The order decided by the first unequal segment at or after `i`.
pub open spec fn order_from(pa: Seq<Seq<char>>, pb: Seq<Seq<char>>, i: int) -> int
    decreases (if pa.len() > pb.len() {
        pa.len()
    } else {
        pb.len()
    }) - i,
{
    let n = if pa.len() > pb.len() {
        pa.len()
    } else {
        pb.len()
    };
    if i < 0 || i >= n {
        0
    } else {
        let c = segment_order(segment(pa, i), segment(pb, i));
        if c != 0 {
            c
        } else {
            order_from(pa, pb, i + 1)
        }
    }
}

/// The order of two semver-ish versions, as -1, 0 or 1: segments split
/// on `.`, missing segments read as `0`, compared left to right.
pub open spec fn version_order(a: Seq<char>, b: Seq<char>) -> int {
    order_from(split(a, '.'), split(b, '.'), 0)
}

proof fn lemma_segment_antisym(x: Seq<char>, y: Seq<char>)
    ensures
        segment_order(x, y) == -segment_order(y, x),
        segment_order(x, x) == 0,
{
    lemma_lex_antisym(x, y);
    lemma_lex_zero(x, x);
}

proof fn lemma_order_from_antisym(pa: Seq<Seq<char>>, pb: Seq<Seq<char>>, i: int)
    ensures
        order_from(pa, pb, i) == -order_from(pb, pa, i),
        order_from(pa, pa, i) == 0,
    decreases (if pa.len() > pb.len() {
        pa.len()
    } else {
        pb.len()
    }) - i,
{
    let n = if pa.len() > pb.len() {
        pa.len()
    } else {
        pb.len()
    };
    if 0 <= i < n {
        lemma_segment_antisym(segment(pa, i), segment(pb, i));
        lemma_segment_antisym(segment(pa, i), segment(pa, i));
        lemma_order_from_antisym(pa, pb, i + 1);
    } else if 0 <= i < pa.len() {
        lemma_segment_antisym(segment(pa, i), segment(pa, i));
        lemma_order_from_antisym(pa, pa, i + 1);
    }
}

/// Comparing versions is antisymmetric, and a version equals itself:
/// swapping two versions reverses their order, so a local version is
/// ahead of the published one exactly when the published one, taken as
/// local, would be stale; and a local version that is already published
/// is up to date.
pub proof fn lemma_version_order_antisym(a: Seq<char>, b: Seq<char>)
    ensures
        version_order(a, b) == -version_order(b, a),
        version_order(a, a) == 0,
        (diff_status_spec(a, Some(b)) == "ahead"@) <==> (diff_status_spec(b, Some(a)) == "stale"@),
        diff_status_spec(a, Some(a)) == "up_to_date"@,
{
    lemma_order_from_antisym(split(a, '.'), split(b, '.'), 0);
    lemma_order_from_antisym(split(a, '.'), split(a, '.'), 0);
    reveal_strlit("ahead");
    reveal_strlit("stale");
    reveal_strlit("up_to_date");
    assert("ahead"@ != "stale"@) by {
        assert("ahead"@[0] != "stale"@[0]);
    }
    assert("up_to_date"@.len() != "stale"@.len());
    assert("up_to_date"@.len() != "ahead"@.len());
}

/// Whether every segment of `p` parses as a `u64`.
pub open spec fn numeric_segments(p: Seq<Seq<char>>) -> bool {
    forall|i: int| 0 <= i < p.len() ==> parse_u64(#[trigger] p[i]) is Some
}

proof fn lemma_zero_parses()
    ensures
        parse_u64("0"@) == Some(0u64),
{
    reveal_strlit("0");
    let z = "0"@;
    assert(unsigned_body(z) == z);
    assert(is_digit(z[0]));
    assert(z.drop_last() =~= Seq::<char>::empty());
    assert(z.last() == '0');
    reveal_with_fuel(digits_value, 2);
    assert(digits_value(z) == 0);
}

proof fn lemma_segment_numeric(p: Seq<Seq<char>>, i: int)
    requires
        numeric_segments(p),
    ensures
        parse_u64(segment(p, i)) is Some,
{
    if !(0 <= i < p.len()) {
        lemma_zero_parses();
    }
}

proof fn lemma_order_from_step(pa: Seq<Seq<char>>, pb: Seq<Seq<char>>, i: int)
    requires
        0 <= i,
    ensures
        order_from(pa, pb, i) == (if segment_order(segment(pa, i), segment(pb, i)) != 0 {
            segment_order(segment(pa, i), segment(pb, i))
        } else {
            order_from(pa, pb, i + 1)
        }),
{
    lemma_segment_antisym(segment(pa, i), segment(pb, i));
    lemma_segment_antisym(segment(pa, i), segment(pa, i));
}

proof fn lemma_order_from_trans(pa: Seq<Seq<char>>, pb: Seq<Seq<char>>, pc: Seq<Seq<char>>, i: int)
    requires
        numeric_segments(pa),
        numeric_segments(pb),
        numeric_segments(pc),
        0 <= i,
        order_from(pa, pb, i) <= 0,
        order_from(pb, pc, i) <= 0,
    ensures
        order_from(pa, pc, i) <= 0,
    decreases pa.len() + pb.len() + pc.len() - i,
{
    if i < pa.len() || i < pb.len() || i < pc.len() {
        lemma_order_from_step(pa, pb, i);
        lemma_order_from_step(pb, pc, i);
        lemma_order_from_step(pa, pc, i);
        lemma_segment_numeric(pa, i);
        lemma_segment_numeric(pb, i);
        lemma_segment_numeric(pc, i);
        let x = segment(pa, i);
        let y = segment(pb, i);
        let z = segment(pc, i);
        if segment_order(x, y) == 0 && segment_order(y, z) == 0 {
            lemma_order_from_trans(pa, pb, pc, i + 1);
        }
    }
}

/// Between versions whose dot-separated segments are all numbers,
/// comparing is a total order: of any two, one is at most the other,
/// and a version at most a second that is at most a third is at most
/// the third. (With a non-numeric segment it is not: `2` is before
/// `10`, which is before `1a` by text, yet `2` is after `1a`.)
pub proof fn lemma_version_order_numeric(a: Seq<char>, b: Seq<char>, c: Seq<char>)
    requires
        numeric_segments(split(a, '.')),
        numeric_segments(split(b, '.')),
        numeric_segments(split(c, '.')),
    ensures
        version_order(a, b) <= 0 || version_order(b, a) <= 0,
        version_order(a, b) <= 0 && version_order(b, c) <= 0 ==> version_order(a, c) <= 0,
{
    lemma_version_order_antisym(a, b);
    if version_order(a, b) <= 0 && version_order(b, c) <= 0 {
        lemma_order_from_trans(split(a, '.'), split(b, '.'), split(c, '.'), 0);
    }
}

/// The order of two semver-ish versions, as -1, 0 or 1.
pub fn version_order_of(a: &str, b: &str) -> (r: i8)
    ensures
        r as int == version_order(a@, b@),
        -1 <= r <= 1,
{
    let va = to_chars(a);
    let vb = to_chars(b);
    let zero = to_chars("0");
    assert(va@.subrange(0, va@.len() as int) =~= va@);
    assert(vb@.subrange(0, vb@.len() as int) =~= vb@);
    assert(zero@.subrange(0, zero@.len() as int) =~= zero@);
    let ra = split_ranges(&va, 0, va.len(), '.');
    let rb = split_ranges(&vb, 0, vb.len(), '.');
    let ghost pa = split(a@, '.');
    let ghost pb = split(b@, '.');
    let n = if ra.len() > rb.len() {
        ra.len()
    } else {
        rb.len()
    };
    let mut i: usize = 0;
    while i < n
        invariant
            i <= n,
            n == (if pa.len() > pb.len() {
                pa.len()
            } else {
                pb.len()
            }),
            ra@.len() == pa.len(),
            rb@.len() == pb.len(),
            va@ == a@,
            vb@ == b@,
            zero@ == "0"@,
            pa == split(a@, '.'),
            pb == split(b@, '.'),
            forall|k: int|
                0 <= k < ra@.len() ==> #[trigger] ra@[k].0 <= ra@[k].1 <= va@.len() && va@.subrange(
                    ra@[k].0 as int,
                    ra@[k].1 as int,
                ) == pa[k],
            forall|k: int|
                0 <= k < rb@.len() ==> #[trigger] rb@[k].0 <= rb@[k].1 <= vb@.len() && vb@.subrange(
                    rb@[k].0 as int,
                    rb@[k].1 as int,
                ) == pb[k],
            version_order(a@, b@) == order_from(pa, pb, i as int),
        decreases n - i,
    {
        let (xa, xl, xh) = if i < ra.len() {
            (&va, ra[i].0, ra[i].1)
        } else {
            (&zero, 0, 1)
        };
        let (ya, yl, yh) = if i < rb.len() {
            (&vb, rb[i].0, rb[i].1)
        } else {
            (&zero, 0, 1)
        };
        proof {
            reveal_strlit("0");
        }
        assert(xa@.subrange(xl as int, xh as int) == segment(pa, i as int));
        assert(ya@.subrange(yl as int, yh as int) == segment(pb, i as int));
        let c: i8 = match (parse_u64_range(xa, xl, xh), parse_u64_range(ya, yl, yh)) {
            (Some(m), Some(k)) => if m < k {
                -1
            } else if k < m {
                1
            } else {
                0
            },
            _ => lex_order_range(xa, xl, xh, ya, yl, yh),
        };
        if c != 0 {
            return c;
        }
        i = i + 1;
    }
    0
}

/// `Less`, `Equal` or `Greater` for -1, 0 or 1.
pub open spec fn ordering_of(x: int) -> Ordering {
    if x < 0 {
        Ordering::Less
    } else if x > 0 {
        Ordering::Greater
    } else {
        Ordering::Equal
    }
}

/// Compare two semver-ish version strings. Splits on `.`, compares each
/// segment numerically when both parse, else lexicographically; a
/// missing segment reads as `0`.
pub fn compare_versions(a: &str, b: &str) -> (o: Ordering)
    ensures
        o == ordering_of(version_order(a@, b@)),
{
    let r = version_order_of(a, b);
    if r < 0 {
        Ordering::Less
    } else if r > 0 {
        Ordering::Greater
    } else {
        Ordering::Equal
    }
}

/// The diff status between a local and a published version.
pub open spec fn diff_status_spec(local: Seq<char>, published: Option<Seq<char>>) -> Seq<char> {
    match published {
        None => "unpublished"@,
        Some(p) => {
            let o = version_order(local, p);
            if o > 0 {
                "ahead"@
            } else if o < 0 {
                "stale"@
            } else {
                "up_to_date"@
            }
        },
    }
}

/// Determine the diff status between local and published versions.
pub fn diff_status(local: &str, published: Option<&str>) -> (s: &'static str)
    ensures
        s@ == diff_status_spec(
            local@,
            match published {
                Some(p) => Some(p@),
                None => None,
            },
        ),
{
    match published {
        None => "unpublished",
        Some(pub_ver) => {
            let o = version_order_of(local, pub_ver);
            if o > 0 {
                "ahead"
            } else if o < 0 {
                "stale"
            } else {
                "up_to_date"
            }
        },
    }
}


/// What one line gives a lookup of the key `prefix` (such as `name:`):
/// the line is trimmed; if its lowercase form starts with `prefix`, the
/// trimmed line is cut after the key's byte length and the rest,
/// trimmed, is the value when it is not empty. `None` when that cut is
/// not at a character boundary (the lookup panics there),
/// `Some(None)` when the line gives no value.
pub open spec fn keyed_line_value(line: Seq<char>, prefix: Seq<char>) -> Option<Option<Seq<char>>> {
    let t = trim(line);
    if prefix.is_prefix_of(lowercase(t)) {
        match char_index_at_byte(t, byte_len(prefix)) {
            Some(k) => {
                let v = trim(t.skip(k as int));
                if v.len() > 0 {
                    Some(Some(v))
                } else {
                    Some(None)
                }
            },
            None => None,
        }
    } else {
        Some(None)
    }
}

/// The value of the first line that gives one (`Some(None)` when none
/// does); `None` when a line before it makes the lookup panic.
pub open spec fn keyed_lookup(ls: Seq<Seq<char>>, prefix: Seq<char>) -> Option<Option<Seq<char>>>
    decreases ls.len(),
{
    if ls.len() == 0 {
        Some(None)
    } else {
        match keyed_line_value(ls[0], prefix) {
            None => None,
            Some(Some(v)) => Some(Some(v)),
            Some(None) => keyed_lookup(ls.drop_first(), prefix),
        }
    }
}

/// The view of an optional string.
pub open spec fn opt_string_view(o: Option<String>) -> Option<Seq<char>> {
    match o {
        Some(s) => Some(s@),
        None => None,
    }
}

/// Looks up the key `prefix` line by line in `content`. `None` when
/// the lookup would cut a line inside a character (or the key's byte
/// length does not fit in a `usize`); otherwise the value found, if any.
pub fn keyed_lookup_of(content: &str, prefix: &str) -> (r: Option<Option<String>>)
    ensures
        match r {
            Some(v) => keyed_lookup(lines(content@), prefix@) == Some(opt_string_view(v)),
            None => keyed_lookup(lines(content@), prefix@) is None || byte_len(prefix@)
                > usize::MAX,
        },
        r is Some ==> byte_len(prefix@) <= usize::MAX,
{
    let pv = to_chars(prefix);
    assert(pv@.subrange(0, pv@.len() as int) =~= pv@);
    let n = match byte_len_range(&pv, 0, pv.len()) {
        Some(n) => n,
        None => return None,
    };
    let ls = lines_of(content);
    let ghost all = lines(content@);
    let mut i: usize = 0;
    assert(all.skip(0) =~= all);
    while i < ls.len()
        invariant
            i <= ls@.len(),
            ls@.len() == all.len(),
            forall|j: int| 0 <= j < ls@.len() ==> (#[trigger] ls@[j])@ == all[j],
            all == lines(content@),
            n == byte_len(prefix@),
            keyed_lookup(all, prefix@) == keyed_lookup(all.skip(i as int), prefix@),
        decreases ls@.len() - i,
    {
        let ghost rest = all.skip(i as int);
        assert(rest[0] == all[i as int]);
        assert(rest.drop_first() =~= all.skip(i + 1));
        let t = trim_str(ls[i].as_str());
        let lower = to_lowercase(t.as_str());
        if starts_with(lower.as_str(), prefix) {
            let tv = to_chars(t.as_str());
            assert(tv@.subrange(0, tv@.len() as int) =~= tv@);
            match char_index_at_byte_range(&tv, 0, tv.len(), n) {
                None => return None,
                Some(k) => {
                    let (a, b) = trim_range(&tv, k, tv.len());
                    assert(tv@.subrange(k as int, tv@.len() as int) =~= tv@.skip(k as int));
                    if a < b {
                        return Some(Some(string_of_range(&tv, a, b)));
                    }
                },
            }
        }
        i = i + 1;
    }
    assert(all.skip(i as int) =~= Seq::<Seq<char>>::empty());
    Some(None)
}

/// Parse a top-level field (`name:`, `version:`) from cabal file
/// content: the value of the first line whose trimmed, lowercased form
/// starts with `<field>:` and has a non-empty remainder.
pub fn parse_cabal_field(content: &str, field: &str) -> (r: Option<String>)
    requires
        keyed_lookup(lines(content@), field@ + ":"@) is Some,
        byte_len(field@ + ":"@) <= usize::MAX,
    ensures
        keyed_lookup(lines(content@), field@ + ":"@) == Some(opt_string_view(r)),
{
    let prefix = concat(field, ":");
    match keyed_lookup_of(content, prefix.as_str()) {
        Some(v) => v,
        None => None,
    }
}

/// `parse_cabal_field` for any input: `None` where that lookup would
/// cut a line inside a character, else its result.
pub fn parse_cabal_field_checked(content: &str, field: &str) -> (r: Option<Option<String>>)
    ensures
        match r {
            Some(v) => keyed_lookup(lines(content@), field@ + ":"@) == Some(opt_string_view(v)),
            None => keyed_lookup(lines(content@), field@ + ":"@) is None || byte_len(field@ + ":"@)
                > usize::MAX,
        },
{
    let prefix = concat(field, ":");
    match keyed_lookup_of(content, prefix.as_str()) {
        Some(v) => Some(parse_cabal_field(content, field)),
        None => None,
    }
}

// ---------------------------------------------------------------------
// Querying registries.
// ---------------------------------------------------------------------

/// The build system and registry of a package directory, from which
/// manifests it holds: Cargo (crates.io), then Cabal (Hackage), then
/// npm.
pub fn build_system_of(has_cargo: bool, has_cabal: bool, has_package_json: bool) -> (r: Option<(&'static str, &'static str)>)
    ensures
        match r {
            Some((b, g)) => if has_cargo {
                b@ == "cargo"@ && g@ == "crates_io"@
            } else if has_cabal {
                b@ == "cabal"@ && g@ == "hackage"@
            } else {
                has_package_json && b@ == "node"@ && g@ == "npm"@
            },
            None => !has_cargo && !has_cabal && !has_package_json,
        },
{
    if has_cargo {
        Some(("cargo", "crates_io"))
    } else if has_cabal {
        Some(("cabal", "hackage"))
    } else if has_package_json {
        Some(("node", "npm"))
    } else {
        None
    }
}

/// The string under `key`, if there is one.
pub open spec fn doc_str(doc: DocValue, key: Seq<char>) -> Option<Seq<char>> {
    match get_spec(doc, key) {
        Some(DocValue::Str(s)) => Some(s@),
        _ => None,
    }
}

fn doc_str_exec(doc: &DocValue, key: &str) -> (r: Option<String>)
    ensures
        opt_string_view(r) == doc_str(*doc, key@),
{
    match doc.get(key) {
        Some(DocValue::Str(s)) => Some(s.clone()),
        _ => None,
    }
}

/// The name and version a package manifest declares: `[package]` of a
/// parsed `Cargo.toml`, or the top level of a `package.json`; both
/// must be strings.
pub open spec fn local_version_spec(build_system: Seq<char>, doc: DocValue) -> Option<(Seq<char>, Seq<char>)> {
    let node = if build_system == "cargo"@ {
        get_spec(doc, "package"@)
    } else if build_system == "node"@ {
        Some(doc)
    } else {
        None
    };
    match node {
        Some(n) => if n is Table {
            match (doc_str(n, "name"@), doc_str(n, "version"@)) {
                (Some(a), Some(b)) => Some((a, b)),
                _ => None,
            }
        } else {
            None
        },
        None => None,
    }
}

/// The document a Cargo (TOML) or npm (JSON) manifest text parses to;
/// nothing for another build system or a text that does not parse.
pub open spec fn manifest_doc(build_system: Seq<char>, raw: Seq<char>) -> Option<DocValue> {
    let parsed = if build_system == "cargo"@ {
        Some(toml_doc(raw))
    } else if build_system == "node"@ {
        Some(json_doc(raw))
    } else {
        None
    };
    match parsed {
        Some(Ok(d)) => Some(d),
        _ => None,
    }
}

/// The local name and version of a Cargo or npm package from its
/// manifest's text: nothing when the text does not parse, else what
/// `local_version_spec` reads of the document.
pub fn local_version_from_text(build_system: &str, raw: &str) -> (r: Option<(String, String)>)
    ensures
        match manifest_doc(build_system@, raw@) {
            None => r is None,
            Some(d) => match r {
                Some((a, b)) => local_version_spec(build_system@, d) == Some((a@, b@)),
                None => local_version_spec(build_system@, d) is None,
            },
        },
{
    let parsed = if eq_str(build_system, "cargo") {
        parse_toml(raw)
    } else if eq_str(build_system, "node") {
        parse_json(raw)
    } else {
        return None;
    };
    match parsed {
        Ok(doc) => local_version_from_doc(build_system, &doc),
        Err(_) => None,
    }
}

/// The local name and version of a Cargo or npm package (see
/// `local_version_spec`); Cabal packages go through
/// `parse_cabal_field`.
pub fn local_version_from_doc(build_system: &str, doc: &DocValue) -> (r: Option<(String, String)>)
    ensures
        match r {
            Some((a, b)) => local_version_spec(build_system@, *doc) == Some((a@, b@)),
            None => local_version_spec(build_system@, *doc) is None,
        },
{
    let node = if eq_str(build_system, "cargo") {
        doc.get("package")
    } else if eq_str(build_system, "node") {
        Some(doc)
    } else {
        None
    };
    match node {
        Some(n) => match n {
            DocValue::Table(_) => match (doc_str_exec(n, "name"), doc_str_exec(n, "version")) {
                (Some(a), Some(b)) => Some((a, b)),
                _ => None,
            },
            _ => None,
        },
        None => None,
    }
}

/// What the answer to a registry query means before its body is read.
#[derive(Debug)]
pub enum QueryStep {
    /// 404: the package was never published.
    NotPublished,
    /// A 2xx: the body names the version.
    ReadBody,
    /// Anything else.
    Failed(RegistryError),
}

/// The error of a registry that is not queried.
pub fn unknown_registry(registry: &str, name: &str) -> (e: RegistryError)
    ensures
        e matches RegistryError::Parse { registry: r, name: n, message: m } && r@ == registry@ && n@ == name@ && m@
            == "unknown registry: "@ + registry@,
{
    RegistryError::Parse {
        registry: registry.to_string(),
        name: name.to_string(),
        message: concat("unknown registry: ", registry),
    }
}

/// What the answer (`code`, `status` text) to a query of `registry`
/// for `name` means.
pub fn query_step(registry: &str, name: &str, code: u16, status: &str) -> (s: QueryStep)
    ensures
        code == 404 ==> s is NotPublished,
        code != 404 && 200 <= code <= 299 ==> s is ReadBody,
        code != 404 && !(200 <= code <= 299) ==> (s matches QueryStep::Failed(RegistryError::Http { registry: r, name: n, message: m })
            && r@ == registry@ && n@ == name@ && m@ == "status "@ + status@),
{
    if code == 404 {
        QueryStep::NotPublished
    } else if 200 <= code && code <= 299 {
        QueryStep::ReadBody
    } else {
        QueryStep::Failed(
            RegistryError::Http { registry: registry.to_string(), name: name.to_string(), message: concat("status ", status) },
        )
    }
}

/// The latest version a registry's answer names: crates.io's
/// `crate.max_stable_version` (else `crate.max_version`), Hackage's
/// first `normal-version`, npm's `dist-tags.latest`.
pub open spec fn published_version_spec(registry: Seq<char>, body: DocValue) -> Option<Seq<char>> {
    if registry == "crates_io"@ {
        match get_spec(body, "crate"@) {
            Some(c) => match get_spec(c, "max_stable_version"@) {
                Some(DocValue::Str(s)) => Some(s@),
                Some(_) => None,
                None => doc_str(c, "max_version"@),
            },
            None => None,
        }
    } else if registry == "hackage"@ {
        match get_spec(body, "normal-version"@) {
            Some(DocValue::Array(a)) => if a@.len() > 0 {
                match a@[0] {
                    DocValue::Str(s) => Some(s@),
                    _ => None,
                }
            } else {
                None
            },
            _ => None,
        }
    } else if registry == "npm"@ {
        match get_spec(body, "dist-tags"@) {
            Some(d) => doc_str(d, "latest"@),
            None => None,
        }
    } else {
        None
    }
}

/// Hackage lists a package's normal versions newest first, so the
/// published version it reports is the first one listed: the first
/// string of the body's `normal-version` array, whatever follows it;
/// nothing when that array is empty or its first entry is no string.
pub proof fn lemma_hackage_reports_first_version(body: DocValue, a: Vec<DocValue>, s: String)
    requires
        get_spec(body, "normal-version"@) == Some(DocValue::Array(a)),
    ensures
        a@.len() > 0 && a@[0] == DocValue::Str(s) ==> published_version_spec("hackage"@, body) == Some(s@),
        a@.len() == 0 ==> published_version_spec("hackage"@, body) is None,
        a@.len() > 0 && !(a@[0] is Str) ==> published_version_spec("hackage"@, body) is None,
{
    reveal_strlit("hackage");
    reveal_strlit("crates_io");
    assert("hackage"@[0] != "crates_io"@[0]);
}

/// The latest version a registry's parsed answer names (see
/// `published_version_spec`).
pub fn published_version(registry: &str, body: &DocValue) -> (r: Option<String>)
    ensures
        opt_string_view(r) == published_version_spec(registry@, *body),
{
    if eq_str(registry, "crates_io") {
        match body.get("crate") {
            Some(c) => match c.get("max_stable_version") {
                Some(DocValue::Str(s)) => Some(s.clone()),
                Some(_) => None,
                None => doc_str_exec(c, "max_version"),
            },
            None => None,
        }
    } else if eq_str(registry, "hackage") {
        match body.get("normal-version") {
            Some(DocValue::Array(a)) => {
                if a.len() > 0 {
                    match &a[0] {
                        DocValue::Str(s) => Some(s.clone()),
                        _ => None,
                    }
                } else {
                    None
                }
            },
            _ => None,
        }
    } else if eq_str(registry, "npm") {
        match body.get("dist-tags") {
            Some(d) => doc_str_exec(d, "latest"),
            None => None,
        }
    } else {
        None
    }
}

/// The published version from the JSON text of a registry's answer
/// (see `published_version`); the parse error's message when the body
/// is no JSON document.
pub fn published_version_from_body(registry: &str, text: &str) -> (r: Result<Option<String>, String>)
    ensures
        match json_doc(text@) {
            Err(m) => r matches Err(e) && e@ == m,
            Ok(d) => r matches Ok(v) && opt_string_view(v) == published_version_spec(registry@, d),
        },
{
    match parse_json(text) {
        Ok(d) => Ok(published_version(registry, &d)),
        Err(m) => Err(m),
    }
}

} // verus!
