//! Calls into `serde_json` on text the library checks: whether a JSON text
//! parses, and what the parsed value holds along a path of object keys.
use vstd::prelude::*;

verus! {

/// Whether `s` is a JSON text that `serde_json` parses into a value.
pub uninterp spec fn json_parses(s: Seq<char>) -> bool;

/// Whether, in the value `serde_json` parses from `text`, looking up the
/// object keys of `path` one after the other (`Value::get`) reaches a value.
pub uninterp spec fn json_has(text: Seq<char>, path: Seq<Seq<char>>) -> bool;

/// The text of the value that the object keys of `path` reach in the value
/// parsed from `text`, when that value is a JSON string (`Value::as_str`).
pub uninterp spec fn json_str_at(text: Seq<char>, path: Seq<Seq<char>>) -> Option<Seq<char>>;

/// A parsed JSON document and the text it was parsed from.
pub struct JsonDoc {
    value: serde_json::Value,
    text: Ghost<Seq<char>>,
}

impl JsonDoc {
    /// The text the document was parsed from.
    pub closed spec fn text(&self) -> Seq<char> {
        self.text@
    }
}

/// A value inside a parsed document: the one that the object keys of
/// `path` reach from the top. Such values are made only by `json_root` and
/// `json_get`, so the value is always the one at `path` in the value parsed
/// from `text`.
pub struct JsonAt<'a> {
    value: &'a serde_json::Value,
    text: Ghost<Seq<char>>,
    path: Ghost<Seq<Seq<char>>>,
}

impl<'a> JsonAt<'a> {
    /// The text of the document.
    pub closed spec fn text(&self) -> Seq<char> {
        self.text@
    }

    /// The keys that lead to this value.
    pub closed spec fn path(&self) -> Seq<Seq<char>> {
        self.path@
    }
}

/// `serde_json::from_str::<serde_json::Value>`: parses a JSON text. The
/// contract claims that it succeeds exactly when `json_parses` holds of the
/// text, and keeps the text beside the value it gives.
#[verifier::external_body]
pub(crate) fn parse_json(s: &str) -> (r: Result<JsonDoc, serde_json::Error>)
    ensures
        r is Ok <==> json_parses(s@),
        r matches Ok(d) ==> d.text() == s@,
{
    serde_json::from_str(s).map(|value| JsonDoc { value, text: Ghost(s@) })
}

/// The top of a parsed document.
pub(crate) fn json_root<'a>(d: &'a JsonDoc) -> (r: JsonAt<'a>)
    ensures
        r.text() == d.text(),
        r.path() == Seq::<Seq<char>>::empty(),
{
    JsonAt { value: &d.value, text: Ghost(d.text@), path: Ghost(Seq::empty()) }
}

/// `serde_json::Value::get` with a string key. The contract claims that it
/// finds a value exactly when `json_has` holds of the path extended by
/// `key`, and that the value found is the one at that path.
#[verifier::external_body]
pub(crate) fn json_get<'a>(at: &JsonAt<'a>, key: &str) -> (r: Option<JsonAt<'a>>)
    ensures
        r is Some <==> json_has(at.text(), at.path().push(key@)),
        r matches Some(x) ==> x.text() == at.text() && x.path() == at.path().push(key@),
{
    at.value.get(key).map(|v| JsonAt { value: v, text: Ghost(at.text@), path: Ghost(at.path@.push(key@)) })
}

/// `serde_json::Value::as_str`: the text of a JSON string. The contract
/// claims that the result is `json_str_at` of the value's text and path.
#[verifier::external_body]
pub(crate) fn json_as_str(at: &JsonAt) -> (r: Option<String>)
    ensures
        match r {
            Some(t) => json_str_at(at.text(), at.path()) == Some(t@),
            None => json_str_at(at.text(), at.path()) is None,
        },
{
    at.value.as_str().map(String::from)
}

/// The string at key `a` of the value parsed from `text`, if any.
pub open spec fn json_str1(text: Seq<char>, a: Seq<char>) -> Option<Seq<char>> {
    if json_has(text, seq![a]) {
        json_str_at(text, seq![a])
    } else {
        None
    }
}

/// The string at key `b` inside key `a` of the value parsed from `text`,
/// if any.
pub open spec fn json_str2(text: Seq<char>, a: Seq<char>, b: Seq<char>) -> Option<Seq<char>> {
    if json_has(text, seq![a]) && json_has(text, seq![a, b]) {
        json_str_at(text, seq![a, b])
    } else {
        None
    }
}

}
