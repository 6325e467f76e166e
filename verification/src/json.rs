//! JSON documents as plain trees, and the reading of such trees.

use vstd::prelude::*;
use crate::text::same_text;

verus! {

/// A JSON value.
///
/// A number is kept as the bit pattern of its IEEE 754 double-precision
/// value, where it has one. The members of an object stand in the order in
/// which the parser hands them out.
#[derive(Debug, PartialEq, Eq)]
pub enum Json {
    Null,
    Bool(bool),
    Number(Option<u64>),
    Text(String),
    Array(Vec<Json>),
    Object(Vec<(String, Json)>),
}

/// A [`Json`] value as mathematical values.
pub enum JsonValue {
    Null,
    Bool(bool),
    Number(Option<u64>),
    Text(Seq<char>),
    Array(Seq<JsonValue>),
    Object(Seq<(Seq<char>, JsonValue)>),
}

/// The mathematical value of a [`Json`] tree.
pub open spec fn json_value(json: Json) -> JsonValue
    decreases json,
{
    match json {
        Json::Null => JsonValue::Null,
        Json::Bool(b) => JsonValue::Bool(b),
        Json::Number(bits) => JsonValue::Number(bits),
        Json::Text(s) => JsonValue::Text(s@),
        Json::Array(items) => JsonValue::Array(
            Seq::new(
                items@.len(),
                |i: int|
                    if 0 <= i < items@.len() {
                        json_value(items@[i])
                    } else {
                        JsonValue::Null
                    },
            ),
        ),
        Json::Object(members) => JsonValue::Object(
            Seq::new(
                members@.len(),
                |i: int|
                    if 0 <= i < members@.len() {
                        (members@[i].0@, json_value(members@[i].1))
                    } else {
                        (Seq::empty(), JsonValue::Null)
                    },
            ),
        ),
    }
}

impl DeepView for Json {
    type V = JsonValue;

    open spec fn deep_view(&self) -> JsonValue {
        json_value(*self)
    }
}

/// The value of the first member named `key` among `members`.
pub open spec fn member_of(members: Seq<(Seq<char>, JsonValue)>, key: Seq<char>) -> Option<
    JsonValue,
>
    decreases members.len(),
{
    if members.len() == 0 {
        None
    } else if members.first().0 == key {
        Some(members.first().1)
    } else {
        member_of(members.drop_first(), key)
    }
}

impl JsonValue {
    /// The member `key` of an object; `None` for other values and where the
    /// object has no such member.
    pub open spec fn member(self, key: Seq<char>) -> Option<JsonValue> {
        match self {
            JsonValue::Object(members) => member_of(members, key),
            _ => None,
        }
    }

    /// The item at `index` of an array; `None` for other values and where the
    /// array is shorter.
    pub open spec fn item(self, index: int) -> Option<JsonValue> {
        match self {
            JsonValue::Array(items) => if 0 <= index < items.len() {
                Some(items[index])
            } else {
                None
            },
            _ => None,
        }
    }

    /// The characters of a string; `None` for other values.
    pub open spec fn text(self) -> Option<Seq<char>> {
        match self {
            JsonValue::Text(s) => Some(s),
            _ => None,
        }
    }

    /// The double-precision bit pattern of a number; `None` for other values
    /// and for a number that has no such value.
    pub open spec fn number_bits(self) -> Option<u64> {
        match self {
            JsonValue::Number(bits) => bits,
            _ => None,
        }
    }
}

impl Json {
    /// Looks up the member `key` of an object.
    pub fn get(&self, key: &str) -> (r: Option<&Json>)
        ensures
            r.deep_view() == self.deep_view().member(key@),
    {
        match self {
            Json::Object(members) => {
                let ghost all = self.deep_view()->Object_0;
                let mut i: usize = 0;
                assert(all.skip(0) =~= all);
                while i < members.len()
                    invariant
                        0 <= i <= members.len(),
                        all.len() == members.len(),
                        forall|k: int|
                            0 <= k < members.len() ==> #[trigger] all[k] == (
                                members@[k].0@,
                                json_value(members@[k].1),
                            ),
                        self.deep_view() == JsonValue::Object(all),
                        member_of(all, key@) == member_of(all.skip(i as int), key@),
                    decreases members.len() - i,
                {
                    proof {
                        assert(all.skip(i as int).first() == all[i as int]);
                        assert(all.skip(i as int).drop_first() =~= all.skip(i + 1));
                    }
                    if same_text(members[i].0.as_str(), key) {
                        let found = &members[i].1;
                        assert(all[i as int].1 == json_value(*found));
                        assert(member_of(all.skip(i as int), key@) == Some(json_value(*found)));
                        return Some(found);
                    }
                    i += 1;
                }
                None
            },
            _ => None,
        }
    }

    /// Looks up the item at `index` of an array.
    pub fn at(&self, index: usize) -> (r: Option<&Json>)
        ensures
            r.deep_view() == self.deep_view().item(index as int),
    {
        match self {
            Json::Array(items) => {
                if index < items.len() {
                    Some(&items[index])
                } else {
                    None
                }
            },
            _ => None,
        }
    }

    /// The characters of a string value.
    pub fn as_str(&self) -> (r: Option<&str>)
        ensures
            r.deep_view() == self.deep_view().text(),
    {
        match self {
            Json::Text(s) => Some(s.as_str()),
            _ => None,
        }
    }

    /// Whether the value is an array.
    pub fn is_array(&self) -> (r: bool)
        ensures
            r == (self.deep_view() is Array),
    {
        match self {
            Json::Array(_) => true,
            _ => false,
        }
    }

    /// The double-precision bit pattern of a number value.
    pub fn as_number_bits(&self) -> (r: Option<u64>)
        ensures
            r == self.deep_view().number_bits(),
    {
        match self {
            Json::Number(bits) => *bits,
            _ => None,
        }
    }
}


/// `serde_json`'s own tree type, handed from the parser to [`lower_json`].
#[verifier::external_type_specification]
#[verifier::external_body]
pub struct ExJsonTree(serde_json::Value);

/// What a `serde_json::Value` holds: its variant and, below it, its string,
/// its items or its members in the order of `serde_json::Map`'s iterator. A
/// number stands as the bit pattern of what `Number::as_f64` returns.
pub uninterp spec fn tree_value(tree: serde_json::Value) -> JsonValue;

/// The value that `serde_json::from_str` reads from `text`; `None` where it
/// reports an error.
pub uninterp spec fn document_value(text: Seq<char>) -> Option<JsonValue>;

/// Calls `serde_json::from_str` for a `serde_json::Value`. The contract only
/// names what the returned tree holds.
#[verifier::external_body]
fn read_json(text: &str) -> (r: Option<serde_json::Value>)
    ensures
        match r {
            Some(tree) => document_value(text@) == Some(tree_value(tree)),
            None => document_value(text@) is None,
        },
{
    serde_json::from_str(text).ok()
}

/// Copies a `serde_json::Value` into a [`Json`], variant by variant.
#[verifier::external_body]
fn lower_json(tree: &serde_json::Value) -> (r: Json)
    ensures
        r.deep_view() == tree_value(*tree),
{
    match tree {
        serde_json::Value::Null => Json::Null,
        serde_json::Value::Bool(b) => Json::Bool(*b),
        serde_json::Value::Number(n) => Json::Number(n.as_f64().map(|x| x.to_bits())),
        serde_json::Value::String(s) => Json::Text(s.clone()),
        serde_json::Value::Array(items) => Json::Array(items.iter().map(lower_json).collect()),
        serde_json::Value::Object(members) => Json::Object(
            members.iter().map(|(k, v)| (k.clone(), lower_json(v))).collect(),
        ),
    }
}

/// Reads a JSON document; `None` where `text` is not one.
pub fn parse_json(text: &str) -> (r: Option<Json>)
    ensures
        r.deep_view() == document_value(text@),
{
    match read_json(text) {
        Some(tree) => Some(lower_json(&tree)),
        None => None,
    }
}

} // verus!
