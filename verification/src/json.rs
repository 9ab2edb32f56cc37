//! The crate's own JSON document model. A parsed document is held as plain
//! values (booleans, decimal number text, strings, vectors), so that the
//! decoders over it can be verified; only the parse itself is trusted.

use vstd::prelude::*;
use crate::text::str_eq;

verus! {

/// A JSON document as plain values. Numbers keep their decimal text, since
/// the remote side emits counts that may exceed native integer width.
#[derive(Debug, PartialEq, Eq)]
pub enum JsonValue {
    Null,
    Bool(bool),
    Number(String),
    Str(String),
    Array(Vec<JsonValue>),
    Object(Vec<(String, JsonValue)>),
}

#[verifier::external_type_specification]
#[verifier::external_body]
pub struct ExValue(serde_json::Value);

/// The document that a given text parses to, if any. Parsing is a function
/// of the text alone.
pub uninterp spec fn json_doc(text: Seq<char>) -> Option<JsonValue>;

/// Relies on serde_json::Value: each variant is carried over one for one;
/// a number becomes its decimal text, an object its fields in order.
#[verifier::external_body]
fn json_from_value(v: serde_json::Value) -> JsonValue {
    match v {
        serde_json::Value::Null => JsonValue::Null,
        serde_json::Value::Bool(b) => JsonValue::Bool(b),
        serde_json::Value::Number(n) => JsonValue::Number(n.to_string()),
        serde_json::Value::String(s) => JsonValue::Str(s),
        serde_json::Value::Array(a) => JsonValue::Array(
            a.into_iter().map(json_from_value).collect(),
        ),
        serde_json::Value::Object(m) => JsonValue::Object(
            m.into_iter().map(|(k, x)| (k, json_from_value(x))).collect(),
        ),
    }
}

/// Relies on serde_json::from_str: parses a JSON document, `None` on
/// malformed input. The result depends on the text alone.
#[verifier::external_body]
pub(crate) fn parse_json(text: &str) -> (r: Option<JsonValue>)
    ensures
        r == json_doc(text@),
{
    serde_json::from_str::<serde_json::Value>(text).ok().map(json_from_value)
}

/// The value of the first binding of `key` among an object's fields.
pub open spec fn lookup(fs: Seq<(String, JsonValue)>, key: Seq<char>) -> Option<JsonValue>
    decreases fs.len(),
{
    if fs.len() == 0 {
        None
    } else if fs[0].0@ == key {
        Some(fs[0].1)
    } else {
        lookup(fs.drop_first(), key)
    }
}

pub proof fn lemma_lookup_skip(fs: Seq<(String, JsonValue)>, key: Seq<char>, i: int)
    requires
        0 <= i <= fs.len(),
        forall|j: int| 0 <= j < i ==> (#[trigger] fs[j]).0@ != key,
    ensures
        lookup(fs, key) == lookup(fs.skip(i), key),
    decreases i,
{
    if i > 0 {
        lemma_lookup_skip(fs.drop_first(), key, i - 1);
        assert(fs.skip(i) =~= fs.drop_first().skip(i - 1));
    } else {
        assert(fs.skip(0) =~= fs);
    }
}

pub proof fn lemma_lookup_add(a: Seq<(String, JsonValue)>, b: Seq<(String, JsonValue)>, key: Seq<char>)
    ensures
        lookup(a + b, key) == if lookup(a, key) is Some {
            lookup(a, key)
        } else {
            lookup(b, key)
        },
    decreases a.len(),
{
    if a.len() == 0 {
        assert(a + b =~= b);
    } else {
        lemma_lookup_add(a.drop_first(), b, key);
        assert((a + b).drop_first() =~= a.drop_first() + b);
        assert((a + b)[0] == a[0]);
    }
}

/// The index of the first binding of `key`, searched in order.
pub fn find_first(fs: &Vec<(String, JsonValue)>, key: &str) -> (r: Option<usize>)
    ensures
        match r {
            Some(i) => i < fs@.len() && fs@[i as int].0@ == key@ && (forall|j: int|
                0 <= j < i ==> (#[trigger] fs@[j]).0@ != key@) && lookup(fs@, key@) == Some(
                fs@[i as int].1,
            ),
            None => lookup(fs@, key@) is None,
        },
{
    let n = fs.len();
    let mut i: usize = 0;
    while i < n
        invariant
            n == fs@.len(),
            i <= n,
            forall|j: int| 0 <= j < i ==> (#[trigger] fs@[j]).0@ != key@,
        decreases n - i,
    {
        if str_eq(fs[i].0.as_str(), key) {
            proof {
                lemma_lookup_skip(fs@, key@, i as int);
            }
            return Some(i);
        }
        i = i + 1;
    }
    proof {
        lemma_lookup_skip(fs@, key@, n as int);
        assert(fs@.skip(n as int) =~= Seq::<(String, JsonValue)>::empty());
    }
    None
}

/// Takes the first binding of `key` out of the fields.
pub fn extract_first(fs: &mut Vec<(String, JsonValue)>, key: &str) -> (r: Option<JsonValue>)
    ensures
        r == lookup(old(fs)@, key@),
{
    match find_first(fs, key) {
        Some(i) => {
            let kv = fs.remove(i);
            Some(kv.1)
        },
        None => None,
    }
}

} // verus!
