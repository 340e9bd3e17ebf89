//! Parsed configuration documents (TOML, JSON) as plain values, and
//! the parses of TOML and JSON text into them (by the `toml` and
//! `serde_json` crates).

use vstd::prelude::*;

use crate::text::eq_str;

verus! {

/// A parsed TOML or JSON value. Numbers that are not integers, and
/// TOML dates, are `Other`.
#[derive(Debug)]
pub enum DocValue {
    Str(String),
    Bool(bool),
    Int(i64),
    Array(Vec<DocValue>),
    Table(Vec<(String, DocValue)>),
    Other,
}

/// The entry of `key` in a table's entries (the first one).
pub open spec fn entry_index(entries: Seq<(String, DocValue)>, key: Seq<char>) -> Option<int>
    decreases entries.len(),
{
    if entries.len() == 0 {
        None
    } else if entries[0].0@ == key {
        Some(0)
    } else {
        match entry_index(entries.drop_first(), key) {
            Some(i) => Some(i + 1),
            None => None,
        }
    }
}

/// The value under `key` when `v` is a table holding it.
pub open spec fn get_spec(v: DocValue, key: Seq<char>) -> Option<DocValue> {
    match v {
        DocValue::Table(entries) => match entry_index(entries@, key) {
            Some(i) => Some(entries@[i].1),
            None => None,
        },
        _ => None,
    }
}

proof fn lemma_entry_index(entries: Seq<(String, DocValue)>, key: Seq<char>)
    ensures
        match entry_index(entries, key) {
            Some(i) => 0 <= i < entries.len() && entries[i].0@ == key,
            None => true,
        },
    decreases entries.len(),
{
    if entries.len() > 0 && entries[0].0@ != key {
        lemma_entry_index(entries.drop_first(), key);
    }
}

impl DocValue {
    /// The value under `key`, if this is a table holding it.
    pub fn get(&self, key: &str) -> (r: Option<&DocValue>)
        ensures
            match get_spec(*self, key@) {
                Some(x) => r is Some && *r->0 == x,
                None => r is None,
            },
    {
        match self {
            DocValue::Table(entries) => {
                proof {
                    lemma_entry_index(entries@, key@);
                }
                let mut i: usize = 0;
                assert(entries@.skip(0) =~= entries@);
                while i < entries.len()
                    invariant
                        i <= entries@.len(),
                        *self == DocValue::Table(*entries),
                        entry_index(entries@, key@) == match entry_index(entries@.skip(i as int), key@) {
                            Some(j) => Some(j + i),
                            None => None::<int>,
                        },
                    decreases entries@.len() - i,
                {
                    assert(entries@.skip(i as int).drop_first() =~= entries@.skip(i + 1));
                    assert(entries@.skip(i as int)[0] == entries@[i as int]);
                    if eq_str(entries[i].0.as_str(), key) {
                        assert(entry_index(entries@.skip(i as int), key@) == Some(0int));
                        return Some(&entries[i].1);
                    }
                    i = i + 1;
                }
                None
            },
            _ => None,
        }
    }

    /// The string, if this is one.
    pub fn as_str(&self) -> (r: Option<&str>)
        ensures
            match *self {
                DocValue::Str(s) => r is Some && r->0@ == s@,
                _ => r is None,
            },
    {
        match self {
            DocValue::Str(s) => Some(s.as_str()),
            _ => None,
        }
    }

    /// The entries, if this is a table.
    pub fn as_table(&self) -> (r: Option<&Vec<(String, DocValue)>>)
        ensures
            match *self {
                DocValue::Table(e) => r is Some && *r->0 == e,
                _ => r is None,
            },
    {
        match self {
            DocValue::Table(e) => Some(e),
            _ => None,
        }
    }

    /// The items, if this is an array.
    pub fn as_array(&self) -> (r: Option<&Vec<DocValue>>)
        ensures
            match *self {
                DocValue::Array(a) => r is Some && *r->0 == a,
                _ => r is None,
            },
    {
        match self {
            DocValue::Array(a) => Some(a),
            _ => None,
        }
    }

    /// The flag, if this is a boolean.
    pub fn as_bool(&self) -> (r: Option<bool>)
        ensures
            r == match *self {
                DocValue::Bool(b) => Some(b),
                _ => None,
            },
    {
        match self {
            DocValue::Bool(b) => Some(*b),
            _ => None,
        }
    }
}

// ---------------------------------------------------------------------
// Parsing.
// ---------------------------------------------------------------------

#[verifier::external_type_specification]
#[verifier::external_body]
pub struct ExTomlValue(toml::Value);

#[verifier::external_type_specification]
#[verifier::external_body]
pub struct ExJsonValue(serde_json::Value);

/// The document that the `toml` crate parses from a TOML text (a table
/// parsed with `toml::Table`'s `FromStr`, each value moved to the
/// `DocValue` variant of its kind; floats and dates become `Other`), or
/// its error's message.
pub uninterp spec fn toml_doc(text: Seq<char>) -> Result<DocValue, Seq<char>>;

/// The document that `serde_json::from_str` parses from a JSON text
/// (each value moved to the `DocValue` variant of its kind; numbers that
/// are not `i64`, and `null`, become `Other`), or its error's message.
pub uninterp spec fn json_doc(text: Seq<char>) -> Result<DocValue, Seq<char>>;

/// Moves a parsed TOML value into a document, one variant per arm.
#[verifier::external_body]
fn from_toml(v: toml::Value) -> DocValue {
    match v {
        toml::Value::String(s) => DocValue::Str(s),
        toml::Value::Boolean(b) => DocValue::Bool(b),
        toml::Value::Integer(n) => DocValue::Int(n),
        toml::Value::Array(a) => DocValue::Array(a.into_iter().map(from_toml).collect()),
        toml::Value::Table(t) => DocValue::Table(t.into_iter().map(|(k, x)| (k, from_toml(x))).collect()),
        _ => DocValue::Other,
    }
}

/// Moves a parsed JSON value into a document, one variant per arm.
#[verifier::external_body]
fn from_json(v: serde_json::Value) -> DocValue {
    match v {
        serde_json::Value::String(s) => DocValue::Str(s),
        serde_json::Value::Bool(b) => DocValue::Bool(b),
        serde_json::Value::Number(n) => n.as_i64().map_or(DocValue::Other, DocValue::Int),
        serde_json::Value::Array(a) => DocValue::Array(a.into_iter().map(from_json).collect()),
        serde_json::Value::Object(o) => DocValue::Table(o.into_iter().map(|(k, x)| (k, from_json(x))).collect()),
        serde_json::Value::Null => DocValue::Other,
    }
}

/// Parses TOML text with `toml::Table`'s `FromStr` and moves the table
/// into a document (`from_toml`). The result is named `toml_doc`; what
/// it is on given text is not stated here.
#[verifier::external_body]
pub(crate) fn parse_toml(text: &str) -> (r: Result<DocValue, String>)
    ensures
        match r {
            Ok(d) => toml_doc(text@) == Ok::<DocValue, Seq<char>>(d),
            Err(e) => toml_doc(text@) == Err::<DocValue, Seq<char>>(e@),
        },
{
    match text.parse::<toml::Table>() {
        Ok(t) => Ok(from_toml(toml::Value::Table(t))),
        Err(e) => Err(e.to_string()),
    }
}

/// Parses JSON text with `serde_json::from_str` and moves the value into
/// a document (`from_json`). The result is named `json_doc`; what it is
/// on given text is not stated here.
#[verifier::external_body]
pub(crate) fn parse_json(text: &str) -> (r: Result<DocValue, String>)
    ensures
        match r {
            Ok(d) => json_doc(text@) == Ok::<DocValue, Seq<char>>(d),
            Err(e) => json_doc(text@) == Err::<DocValue, Seq<char>>(e@),
        },
{
    match serde_json::from_str::<serde_json::Value>(text) {
        Ok(v) => Ok(from_json(v)),
        Err(e) => Err(e.to_string()),
    }
}

} // verus!
