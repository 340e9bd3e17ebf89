//! Read-only analytics over a checkout: total size, large files and
//! the language of a file. The directory walk (which skips `.git/`) is
//! done by the program around this library, which hands the files it
//! found to the functions here.

use vstd::prelude::*;

use crate::order::{lemma_lex_antisym, lemma_lex_trans, lemma_lex_zero, lex_lt, str_lt, strictly_sorted};
use crate::text::{concat, eq_str};

verus! {

/// Errors of an analytics walk.
#[derive(Debug, Clone)]
pub enum AnalyticsError {
    NotADir(String),
    Io(String),
}

impl AnalyticsError {
    /// The stable machine-readable code of the error.
    pub fn code(&self) -> (s: &'static str)
        ensures
            s@ == match self {
                AnalyticsError::NotADir(_) => "not_a_directory"@,
                AnalyticsError::Io(_) => "io"@,
            },
    {
        match self {
            AnalyticsError::NotADir(_) => "not_a_directory",
            AnalyticsError::Io(_) => "io",
        }
    }

    /// The human-readable description of the error.
    pub fn message(&self) -> (s: String)
        ensures
            s@ == match self {
                AnalyticsError::NotADir(p) => "path is not a directory: "@ + p@,
                AnalyticsError::Io(m) => "io error: "@ + m@,
            },
    {
        match self {
            AnalyticsError::NotADir(p) => concat("path is not a directory: ", p.as_str()),
            AnalyticsError::Io(m) => concat("io error: ", m.as_str()),
        }
    }
}

/// Total bytes and number of files.
#[derive(Debug, Clone, Copy, PartialEq, Eq, Structural)]
pub struct SizeSummary {
    pub bytes: u64,
    pub file_count: u64,
}

/// A file (relative to the walk root) and its size.
#[derive(Debug, Clone)]
pub struct LargeFile {
    pub path: String,
    pub size: u64,
}

impl LargeFile {
    /// A copy of the entry.
    pub fn duplicate(&self) -> (r: LargeFile)
        ensures
            r == *self,
    {
        LargeFile { path: self.path.clone(), size: self.size }
    }
}

/// The sum of the sizes.
pub open spec fn total_size(files: Seq<LargeFile>) -> nat
    decreases files.len(),
{
    if files.len() == 0 {
        0
    } else {
        total_size(files.drop_last()) + files.last().size as nat
    }
}

proof fn lemma_total_size_prefix(files: Seq<LargeFile>, i: int)
    requires
        0 <= i <= files.len(),
    ensures
        total_size(files.take(i)) <= total_size(files),
    decreases files.len() - i,
{
    if i < files.len() {
        lemma_total_size_prefix(files, i + 1);
        assert(files.take(i + 1).drop_last() =~= files.take(i));
    } else {
        assert(files.take(i) =~= files);
    }
}

/// Total bytes and count of the files the walk found.
pub fn repo_size(files: &[LargeFile]) -> (s: SizeSummary)
    requires
        total_size(files@) <= u64::MAX,
    ensures
        s.bytes == total_size(files@),
        s.file_count == files@.len(),
{
    let mut s = SizeSummary { bytes: 0, file_count: 0 };
    let mut i: usize = 0;
    while i < files.len()
        invariant
            i <= files@.len(),
            total_size(files@) <= u64::MAX,
            s.bytes == total_size(files@.take(i as int)),
            s.file_count == i,
        decreases files@.len() - i,
    {
        assert(files@.take(i + 1).drop_last() =~= files@.take(i as int));
        proof {
            lemma_total_size_prefix(files@, i + 1);
        }
        s.bytes = s.bytes + files[i].size;
        s.file_count = s.file_count + 1;
        i = i + 1;
    }
    assert(files@.take(files@.len() as int) =~= files@);
    s
}

/// `x` placed after every entry at least as large (keeping equal sizes
/// in arrival order).
pub open spec fn insert_by_size(sorted: Seq<LargeFile>, x: LargeFile) -> Seq<LargeFile>
    decreases sorted.len(),
{
    if sorted.len() == 0 {
        seq![x]
    } else if sorted.last().size >= x.size {
        sorted.push(x)
    } else {
        insert_by_size(sorted.drop_last(), x).push(sorted.last())
    }
}

/// The files by descending size, ties in their original order (a
/// stable sort).
pub open spec fn by_size_desc(files: Seq<LargeFile>) -> Seq<LargeFile>
    decreases files.len(),
{
    if files.len() == 0 {
        seq![]
    } else {
        insert_by_size(by_size_desc(files.drop_last()), files.last())
    }
}

/// Sizes never increase along `s`.
pub open spec fn size_descending(s: Seq<LargeFile>) -> bool {
    forall|i: int, j: int| 0 <= i < j < s.len() ==> #[trigger] s[i].size >= #[trigger] s[j].size
}

proof fn lemma_insert_by_size(t: Seq<LargeFile>, x: LargeFile)
    requires
        size_descending(t),
    ensures
        size_descending(insert_by_size(t, x)),
        insert_by_size(t, x).to_multiset() =~= t.to_multiset().insert(x),
        forall|k: int|
            0 <= k < insert_by_size(t, x).len() ==> #[trigger] insert_by_size(t, x)[k] == x || t.contains(
                insert_by_size(t, x)[k],
            ),
    decreases t.len(),
{
    broadcast use vstd::seq_lib::group_to_multiset_ensures;
    let r = insert_by_size(t, x);
    if t.len() == 0 {
        assert(r =~= seq![x]);
        assert(seq![x] =~= Seq::<LargeFile>::empty().push(x));
        assert(t =~= Seq::<LargeFile>::empty());
    } else if t.last().size >= x.size {
        assert forall|i: int, j: int| 0 <= i < j < r.len() implies #[trigger] r[i].size >= #[trigger] r[j].size by {
            if j == t.len() {
                assert(t[i].size >= t[t.len() - 1].size || i == t.len() - 1);
            }
        }
        assert forall|k: int| 0 <= k < r.len() implies #[trigger] r[k] == x || t.contains(r[k]) by {
            if k < t.len() {
                assert(r[k] == t[k]);
            }
        }
    } else {
        let p = t.drop_last();
        let q = insert_by_size(p, x);
        assert(size_descending(p));
        lemma_insert_by_size(p, x);
        assert(t =~= p.push(t.last()));
        assert forall|i: int, j: int| 0 <= i < j < r.len() implies #[trigger] r[i].size >= #[trigger] r[j].size by {
            if j == q.len() {
                assert(r[i] == q[i]);
                if q[i] != x {
                    let m = choose|m: int| 0 <= m < p.len() && p[m] == q[i];
                    assert(t[m] == p[m]);
                    assert(t[m].size >= t[t.len() - 1].size);
                }
            } else {
                assert(r[i] == q[i] && r[j] == q[j]);
            }
        }
        assert forall|k: int| 0 <= k < r.len() implies #[trigger] r[k] == x || t.contains(r[k]) by {
            if k < q.len() {
                assert(r[k] == q[k]);
                if q[k] != x {
                    let m = choose|m: int| 0 <= m < p.len() && p[m] == q[k];
                    assert(t[m] == p[m]);
                }
            } else {
                assert(r[k] == t[t.len() - 1]);
            }
        }
    }
}

/// The sort keeps exactly the given files and orders them by
/// descending size.
pub proof fn lemma_by_size_desc(files: Seq<LargeFile>)
    ensures
        size_descending(by_size_desc(files)),
        by_size_desc(files).to_multiset() =~= files.to_multiset(),
    decreases files.len(),
{
    broadcast use vstd::seq_lib::group_to_multiset_ensures;
    if files.len() > 0 {
        lemma_by_size_desc(files.drop_last());
        lemma_insert_by_size(by_size_desc(files.drop_last()), files.last());
        assert(files =~= files.drop_last().push(files.last()));
    } else {
        assert(by_size_desc(files) =~= files);
    }
}

/// The large files are exactly the files at or above the threshold,
/// largest first.
pub proof fn lemma_large_files(files: Seq<LargeFile>, threshold_bytes: u64)
    ensures
        size_descending(by_size_desc(files.filter(|f: LargeFile| f.size >= threshold_bytes))),
        by_size_desc(files.filter(|f: LargeFile| f.size >= threshold_bytes)).to_multiset()
            =~= files.filter(|f: LargeFile| f.size >= threshold_bytes).to_multiset(),
{
    lemma_by_size_desc(files.filter(|f: LargeFile| f.size >= threshold_bytes));
}

/// Insert `x` into the size-descending `v` after the entries at least
/// as large.
fn insert_sorted(v: &mut Vec<LargeFile>, x: LargeFile)
    ensures
        final(v)@ == insert_by_size(old(v)@, x),
{
    let mut k = v.len();
    let ghost orig = v@;
    assert(orig.take(k as int) =~= orig);
    while k > 0 && v[k - 1].size < x.size
        invariant
            k <= orig.len(),
            v@ == orig,
            insert_by_size(orig, x) == insert_by_size(orig.take(k as int), x) + orig.skip(k as int),
        decreases k,
    {
        let ghost t = orig.take(k as int);
        assert(t.drop_last() =~= orig.take(k - 1));
        assert(t.last() == orig[k - 1]);
        assert(orig.skip(k - 1) =~= seq![orig[k - 1]] + orig.skip(k as int));
        assert(insert_by_size(t, x) == insert_by_size(orig.take(k - 1), x).push(orig[k - 1]));
        assert(insert_by_size(orig.take(k - 1), x).push(orig[k - 1]) + orig.skip(k as int)
            =~= insert_by_size(orig.take(k - 1), x) + orig.skip(k - 1));
        k = k - 1;
    }
    let ghost t = orig.take(k as int);
    assert(insert_by_size(t, x) =~= t.push(x)) by {
        if t.len() > 0 {
            assert(t.last() == orig[k - 1]);
        }
    }
    v.insert(k, x);
    assert(v@ =~= t.push(x) + orig.skip(k as int));
}

/// The files at or above `threshold_bytes`, by descending size (files
/// of equal size in walk order).
pub fn large_files(files: &[LargeFile], threshold_bytes: u64) -> (r: Vec<LargeFile>)
    ensures
        r@ == by_size_desc(files@.filter(|f: LargeFile| f.size >= threshold_bytes)),
{
    let ghost pred = |f: LargeFile| f.size >= threshold_bytes;
    let mut out: Vec<LargeFile> = Vec::new();
    let mut i: usize = 0;
    while i < files.len()
        invariant
            i <= files@.len(),
            pred == (|f: LargeFile| f.size >= threshold_bytes),
            out@ == by_size_desc(files@.take(i as int).filter(pred)),
        decreases files@.len() - i,
    {
        proof {
            reveal(Seq::filter);
            assert(files@.take(i + 1).drop_last() =~= files@.take(i as int));
        }
        if files[i].size >= threshold_bytes {
            let ghost f = files@.take(i as int).filter(pred);
            assert(files@.take(i + 1).filter(pred) == f.push(files@[i as int]));
            assert(f.push(files@[i as int]).drop_last() =~= f);
            assert(by_size_desc(f.push(files@[i as int])) == insert_by_size(by_size_desc(f), files@[i as int]));
            insert_sorted(&mut out, files[i].duplicate());
        }
        i = i + 1;
    }
    assert(files@.take(files@.len() as int) =~= files@);
    out
}

/// The language tag of a file extension, if it is a known one.
pub open spec fn language_of_ext(ext: Seq<char>) -> Option<Seq<char>> {
    if ext == "rs"@ {
        Some("rust"@)
    } else if ext == "toml"@ {
        Some("toml"@)
    } else if ext == "yaml"@ || ext == "yml"@ {
        Some("yaml"@)
    } else if ext == "json"@ {
        Some("json"@)
    } else if ext == "md"@ {
        Some("markdown"@)
    } else if ext == "sh"@ || ext == "bash"@ {
        Some("shell"@)
    } else if ext == "py"@ {
        Some("python"@)
    } else if ext == "js"@ || ext == "mjs"@ || ext == "cjs"@ {
        Some("javascript"@)
    } else if ext == "ts"@ || ext == "tsx"@ {
        Some("typescript"@)
    } else if ext == "go"@ {
        Some("go"@)
    } else if ext == "c"@ || ext == "h"@ {
        Some("c"@)
    } else if ext == "cc"@ || ext == "cpp"@ || ext == "cxx"@ || ext == "hpp"@ || ext == "hh"@ {
        Some("cpp"@)
    } else if ext == "java"@ {
        Some("java"@)
    } else if ext == "rb"@ {
        Some("ruby"@)
    } else if ext == "css"@ {
        Some("css"@)
    } else if ext == "html"@ || ext == "htm"@ {
        Some("html"@)
    } else if ext == "lock"@ {
        Some("lockfile"@)
    } else {
        None
    }
}

/// The language tag of a file extension; `None` for an unknown one
/// (counted as "other").
pub fn classify(ext: &str) -> (r: Option<&'static str>)
    ensures
        match r {
            Some(t) => language_of_ext(ext@) == Some(t@),
            None => language_of_ext(ext@) is None,
        },
{
    if eq_str(ext, "rs") {
        Some("rust")
    } else if eq_str(ext, "toml") {
        Some("toml")
    } else if eq_str(ext, "yaml") || eq_str(ext, "yml") {
        Some("yaml")
    } else if eq_str(ext, "json") {
        Some("json")
    } else if eq_str(ext, "md") {
        Some("markdown")
    } else if eq_str(ext, "sh") || eq_str(ext, "bash") {
        Some("shell")
    } else if eq_str(ext, "py") {
        Some("python")
    } else if eq_str(ext, "js") || eq_str(ext, "mjs") || eq_str(ext, "cjs") {
        Some("javascript")
    } else if eq_str(ext, "ts") || eq_str(ext, "tsx") {
        Some("typescript")
    } else if eq_str(ext, "go") {
        Some("go")
    } else if eq_str(ext, "c") || eq_str(ext, "h") {
        Some("c")
    } else if eq_str(ext, "cc") || eq_str(ext, "cpp") || eq_str(ext, "cxx") || eq_str(ext, "hpp")
        || eq_str(ext, "hh") {
        Some("cpp")
    } else if eq_str(ext, "java") {
        Some("java")
    } else if eq_str(ext, "rb") {
        Some("ruby")
    } else if eq_str(ext, "css") {
        Some("css")
    } else if eq_str(ext, "html") || eq_str(ext, "htm") {
        Some("html")
    } else if eq_str(ext, "lock") {
        Some("lockfile")
    } else {
        None
    }
}

/// The language a file's lines count under: its extension's language,
/// else `other`.
pub open spec fn language_or_other(ext: Seq<char>) -> Seq<char> {
    match language_of_ext(ext) {
        Some(l) => l,
        None => "other"@,
    }
}

/// The lines of the files (extension, line count) that count under
/// `lang`.
pub open spec fn lines_for(files: Seq<(String, u64)>, lang: Seq<char>) -> nat
    decreases files.len(),
{
    if files.len() == 0 {
        0
    } else {
        lines_for(files.drop_last(), lang) + if language_or_other(files.last().0@) == lang {
            files.last().1 as nat
        } else {
            0
        }
    }
}

/// All lines of the files.
pub open spec fn total_lines(files: Seq<(String, u64)>) -> nat
    decreases files.len(),
{
    if files.len() == 0 {
        0
    } else {
        total_lines(files.drop_last()) + files.last().1 as nat
    }
}

/// The languages the files count under.
pub open spec fn languages(files: Seq<(String, u64)>) -> Set<Seq<char>> {
    files.map_values(|f: (String, u64)| language_or_other(f.0@)).to_set()
}

proof fn lemma_lines_for_le_total(files: Seq<(String, u64)>, lang: Seq<char>)
    ensures
        lines_for(files, lang) <= total_lines(files),
    decreases files.len(),
{
    if files.len() > 0 {
        lemma_lines_for_le_total(files.drop_last(), lang);
    }
}

proof fn lemma_total_prefix(files: Seq<(String, u64)>, i: int)
    requires
        0 <= i <= files.len(),
    ensures
        total_lines(files.take(i)) <= total_lines(files),
    decreases files.len() - i,
{
    if i < files.len() {
        lemma_total_prefix(files, i + 1);
        assert(files.take(i + 1).drop_last() =~= files.take(i));
    } else {
        assert(files.take(i) =~= files);
    }
}

/// The keys of a tally.
pub open spec fn tally_keys(out: Seq<(String, u64)>) -> Seq<Seq<char>> {
    out.map_values(|e: (String, u64)| e.0@)
}

/// Line counts per language, in language order: each language the files
/// count under (see `language_or_other`) once, with the sum of its
/// files' lines.
pub fn loc_by_language(files: &Vec<(String, u64)>) -> (r: Vec<(String, u64)>)
    requires
        total_lines(files@) <= u64::MAX,
    ensures
        strictly_sorted(tally_keys(r@)),
        tally_keys(r@).to_set() == languages(files@),
        forall|j: int| 0 <= j < r@.len() ==> (#[trigger] r@[j]).1 == lines_for(files@, r@[j].0@),
{
    let mut out: Vec<(String, u64)> = Vec::new();
    let mut i: usize = 0;
    while i < files.len()
        invariant
            i <= files@.len(),
            total_lines(files@) <= u64::MAX,
            strictly_sorted(tally_keys(out@)),
            tally_keys(out@).to_set() == languages(files@.take(i as int)),
            forall|j: int| 0 <= j < out@.len() ==> (#[trigger] out@[j]).1 == lines_for(files@.take(i as int), out@[j].0@),
        decreases files@.len() - i,
    {
        let ghost pre = files@.take(i as int);
        let ghost post = files@.take(i + 1);
        assert(post.drop_last() =~= pre);
        assert(post.last() == files@[i as int]);
        let lang: &str = match classify(files[i].0.as_str()) {
            Some(l) => l,
            None => "other",
        };
        let n = files[i].1;
        assert(lang@ == language_or_other(files@[i as int].0@));
        proof {
            lemma_lines_for_le_total(post, lang@);
            lemma_total_prefix(files@, i + 1);
            assert(post.map_values(|f: (String, u64)| language_or_other(f.0@)) =~= pre.map_values(
                |f: (String, u64)| language_or_other(f.0@),
            ).push(lang@));
            pre.map_values(|f: (String, u64)| language_or_other(f.0@)).lemma_push_to_set_commute(lang@);
        }
        let ghost o = tally_keys(out@);
        let ghost old_out = out@;
        let mut p: usize = 0;
        while p < out.len() && str_lt(out[p].0.as_str(), lang)
            invariant
                p <= out@.len(),
                o == tally_keys(out@),
                forall|k: int| 0 <= k < p ==> lex_lt(#[trigger] o[k], lang@),
            decreases out@.len() - p,
        {
            p = p + 1;
        }
        if p < out.len() && eq_str(out[p].0.as_str(), lang) {
            assert(o[p as int] == lang@);
            let total = out[p].1 + n;
            let key = out[p].0.clone();
            out.set(p, (key, total));
            assert(tally_keys(out@) =~= o);
            assert(o.to_set().contains(lang@));
            assert(o.to_set().insert(lang@) =~= o.to_set());
            assert forall|j: int| 0 <= j < out@.len() implies (#[trigger] out@[j]).1 == lines_for(post, out@[j].0@) by {
                if j != p {
                    assert(out@[j] == old_out[j]);
                    assert(o[j] != lang@) by {
                        if j < p {
                            lemma_lex_antisym(o[j], lang@);
                        } else {
                            assert(lex_lt(o[p as int], o[j]));
                            lemma_lex_antisym(o[j], o[j]);
                        }
                    }
                }
            }
        } else {
            proof {
                if p < o.len() {
                    lemma_lex_antisym(o[p as int], lang@);
                    lemma_lex_zero(o[p as int], lang@);
                    assert(lex_lt(lang@, o[p as int]));
                }
                assert(!o.contains(lang@)) by {
                    if o.contains(lang@) {
                        let k = choose|k: int| 0 <= k < o.len() && o[k] == lang@;
                        if k < p {
                            lemma_lex_antisym(o[k], lang@);
                        } else if k > p {
                            assert(lex_lt(o[p as int], o[k]));
                            lemma_lex_antisym(lang@, o[p as int]);
                        }
                    }
                }
                assert(lines_for(pre, lang@) == 0) by {
                    lemma_lines_for_absent(pre, lang@);
                    assert(!languages(pre).contains(lang@));
                }
            }
            out.insert(p, (lang.to_string(), n));
            let ghost nk = tally_keys(out@);
            assert(nk =~= o.insert(p as int, lang@));
            assert forall|a: int, b: int| 0 <= a < b < nk.len() implies lex_lt(#[trigger] nk[a], #[trigger] nk[b]) by {
                if b < p {
                    assert(nk[a] == o[a] && nk[b] == o[b]);
                } else if b == p {
                    assert(nk[a] == o[a]);
                } else if a == p {
                    assert(nk[b] == o[b - 1]);
                    if b - 1 > p {
                        assert(lex_lt(o[p as int], o[b - 1]));
                        lemma_lex_trans(lang@, o[p as int], o[b - 1]);
                    }
                } else if a < p {
                    assert(nk[a] == o[a] && nk[b] == o[b - 1]);
                } else {
                    assert(nk[a] == o[a - 1] && nk[b] == o[b - 1]);
                }
            }
            assert forall|y: Seq<char>| nk.to_set().contains(y) <==> o.to_set().insert(lang@).contains(y) by {
                if nk.to_set().contains(y) {
                    let k = choose|k: int| 0 <= k < nk.len() && nk[k] == y;
                    if k < p {
                        assert(o[k] == y);
                    } else if k > p {
                        assert(o[k - 1] == y);
                    }
                }
                if o.to_set().contains(y) {
                    let k = choose|k: int| 0 <= k < o.len() && o[k] == y;
                    if k < p {
                        assert(nk[k] == y);
                    } else {
                        assert(nk[k + 1] == y);
                    }
                }
                if y == lang@ {
                    assert(nk[p as int] == y);
                }
            }
            assert(nk.to_set() =~= o.to_set().insert(lang@));
            assert forall|j: int| 0 <= j < out@.len() implies (#[trigger] out@[j]).1 == lines_for(post, out@[j].0@) by {
                if j < p {
                    assert(out@[j] == old_out[j]);
                    assert(o[j] != lang@) by {
                        lemma_lex_antisym(o[j], lang@);
                    }
                } else if j > p {
                    assert(out@[j] == old_out[j - 1]);
                    assert(o[j - 1] != lang@);
                }
            }
        }
        i = i + 1;
    }
    assert(files@.take(files@.len() as int) =~= files@);
    out
}

proof fn lemma_lines_for_absent(files: Seq<(String, u64)>, lang: Seq<char>)
    requires
        !languages(files).contains(lang),
    ensures
        lines_for(files, lang) == 0,
    decreases files.len(),
{
    if files.len() > 0 {
        let init = files.drop_last();
        assert(files.map_values(|f: (String, u64)| language_or_other(f.0@)) =~= init.map_values(
            |f: (String, u64)| language_or_other(f.0@),
        ).push(language_or_other(files.last().0@)));
        init.map_values(|f: (String, u64)| language_or_other(f.0@)).lemma_push_to_set_commute(
            language_or_other(files.last().0@),
        );
        lemma_lines_for_absent(init, lang);
    }
}

} // verus!
