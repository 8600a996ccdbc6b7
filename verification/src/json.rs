//! JSON values as the replies carry them, built through `serde_json` and
//! described by what they hold: a string, a boolean, an array's items or
//! an object's entries.

use vstd::prelude::*;

verus! {

/// What a JSON string holding `s` is.
pub uninterp spec fn json_string(s: Seq<char>) -> serde_json::Value;

/// What the JSON boolean `b` is.
pub uninterp spec fn json_bool(b: bool) -> serde_json::Value;

/// What `serde_json::Value::from` makes of an optional string: the string,
/// or null.
pub uninterp spec fn json_from_option(s: Option<Seq<char>>) -> serde_json::Value;

/// The entries of a JSON object by key, or `None` for any other value.
pub uninterp spec fn json_entries(v: serde_json::Value) -> Option<Map<Seq<char>, serde_json::Value>>;

/// The JSON array of strings holding `items`, in order.
pub uninterp spec fn json_string_array(items: Seq<Seq<char>>) -> serde_json::Value;

/// The JSON object with the entries `m`.
pub uninterp spec fn json_object(m: Map<Seq<char>, serde_json::Value>) -> serde_json::Value;

/// The entries `s`, inserted in order, a later one replacing an earlier
/// one under the same key.
pub open spec fn entries_map(s: Seq<(Seq<char>, serde_json::Value)>) -> Map<Seq<char>, serde_json::Value>
    decreases s.len(),
{
    if s.len() == 0 {
        Map::empty()
    } else {
        entries_map(s.drop_last()).insert(s.last().0, s.last().1)
    }
}

/// The entries with their keys as character sequences.
pub open spec fn entry_views(s: Seq<(String, serde_json::Value)>) -> Seq<(Seq<char>, serde_json::Value)> {
    s.map_values(|e: (String, serde_json::Value)| (e.0@, e.1))
}

/// `serde_json::Value::String`: the JSON string holding `s`.
#[verifier::external_body]
pub fn string_value(s: String) -> (v: serde_json::Value)
    ensures
        v == json_string(s@),
        json_entries(v) is None,
{
    serde_json::Value::String(s)
}

/// `serde_json::Value::Bool`.
#[verifier::external_body]
pub fn bool_value(b: bool) -> (v: serde_json::Value)
    ensures
        v == json_bool(b),
        json_entries(v) is None,
{
    serde_json::Value::Bool(b)
}

/// `serde_json::Value::from` on an optional string: the string, or null.
#[verifier::external_body]
pub fn option_value(s: Option<String>) -> (v: serde_json::Value)
    ensures
        v == json_from_option(
            match s {
                Some(t) => Some(t@),
                None => None,
            },
        ),
{
    serde_json::Value::from(s)
}

/// `serde_json::Value::from` on a vector of strings: an array of JSON
/// strings, in order.
#[verifier::external_body]
pub fn string_array(v: Vec<String>) -> (r: serde_json::Value)
    ensures
        r == json_string_array(v@.map_values(|s: String| s@)),
        json_entries(r) is None,
{
    serde_json::Value::from(v)
}

/// `serde_json::Map::from_iter` made into an object: the entries inserted
/// in order, a later one replacing an earlier one under the same key.
#[verifier::external_body]
pub fn object_value(entries: Vec<(String, serde_json::Value)>) -> (r: serde_json::Value)
    ensures
        r == json_object(entries_map(entry_views(entries@))),
        json_entries(r) == Some(entries_map(entry_views(entries@))),
{
    serde_json::Value::Object(serde_json::Map::from_iter(entries))
}

/// `serde_json::Value::Object(serde_json::Map::new())`: an empty JSON
/// object.
#[verifier::external_body]
pub fn empty_object() -> (r: serde_json::Value)
    ensures
        json_entries(r) == Some(Map::<Seq<char>, serde_json::Value>::empty()),
{
    serde_json::Value::Object(serde_json::Map::new())
}

/// `serde_json::Map::extend`: where `into` and `from` are both objects,
/// each entry of `from` is inserted into `into`, replacing the one under
/// the same key; otherwise `into` stays as it is.
#[verifier::external_body]
pub fn extend_object(into: &mut serde_json::Value, from: &serde_json::Value)
    ensures
        (json_entries(*old(into)) is Some && json_entries(*from) is Some) ==> json_entries(*final(into)) == Some(
            json_entries(*old(into))->0.union_prefer_right(json_entries(*from)->0),
        ),
        !(json_entries(*old(into)) is Some && json_entries(*from) is Some) ==> *final(into) == *old(into),
{
    if let (serde_json::Value::Object(m), serde_json::Value::Object(o)) = (into, from) {
        m.extend(o.clone());
    }
}

} // verus!
