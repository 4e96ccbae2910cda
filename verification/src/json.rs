//! JSON documents as the library reads and writes them. `serde_json` parses
//! and prints the text; the library works on its own model of the parsed
//! value, `JsonValue`, whose accessors follow `serde_json::Value`'s
//! indexing: a missing key or position reads as `null`.
use vstd::prelude::*;
use crate::text::{str_eq, text_less};

verus! {

/// A parsed JSON value. Numbers are held as far as the library reads or
/// writes them: a non-negative integer that fits in 64 bits, or some other
/// number.
#[derive(Debug)]
pub enum JsonValue {
    Null,
    Bool(bool),
    UInt(u64),
    OtherNumber,
    Str(String),
    Array(Vec<JsonValue>),
    Object(Vec<(String, JsonValue)>),
}

#[verifier::external_type_specification]
#[verifier::external_body]
pub struct ExSerdeJsonValue(serde_json::Value);

/// What `serde_json::from_str::<serde_json::Value>` makes of a text, taken
/// into the library's model; `None` where it reports an error.
pub uninterp spec fn json_parse_result(text: Seq<char>) -> Option<JsonValue>;

/// What `serde_json::to_string_pretty` prints for a value of the model.
pub uninterp spec fn json_pretty_text(v: JsonValue) -> Seq<char>;

/// Moves a `serde_json::Value` into the model, one variant for one: a
/// number becomes `UInt` where `as_u64` gives it, else `OtherNumber`; an
/// object's entries come in the map's iteration order.
#[verifier::external_body]
fn value_into_model(v: serde_json::Value) -> JsonValue {
    match v {
        serde_json::Value::Null => JsonValue::Null,
        serde_json::Value::Bool(b) => JsonValue::Bool(b),
        serde_json::Value::Number(n) => match n.as_u64() {
            Some(u) => JsonValue::UInt(u),
            None => JsonValue::OtherNumber,
        },
        serde_json::Value::String(s) => JsonValue::Str(s),
        serde_json::Value::Array(a) => JsonValue::Array(a.into_iter().map(value_into_model).collect()),
        serde_json::Value::Object(m) => JsonValue::Object(m.into_iter().map(|(k, x)| (k, value_into_model(x))).collect()),
    }
}

/// Moves a value of the model into a `serde_json::Value`, one variant for
/// one; only called on values without `OtherNumber`.
#[verifier::external_body]
fn model_into_value(v: &JsonValue) -> serde_json::Value {
    match v {
        JsonValue::Null | JsonValue::OtherNumber => serde_json::Value::Null,
        JsonValue::Bool(b) => serde_json::Value::Bool(*b),
        JsonValue::UInt(u) => serde_json::Value::from(*u),
        JsonValue::Str(s) => serde_json::Value::String(s.clone()),
        JsonValue::Array(a) => serde_json::Value::Array(a.iter().map(model_into_value).collect()),
        JsonValue::Object(m) => serde_json::Value::Object(m.iter().map(|(k, x)| (k.clone(), model_into_value(x))).collect()),
    }
}

/// Whether the members of every object in `v` come in strictly increasing
/// order of their names (so no name occurs twice), as in a
/// `serde_json::Map`, which is a `BTreeMap` keyed by the names.
pub open spec fn members_ordered(v: JsonValue) -> bool
    decreases v,
{
    match v {
        JsonValue::Array(items) => forall|i: int|
            0 <= i < items@.len() ==> #[trigger] members_ordered(items@[i]),
        JsonValue::Object(fields) => (forall|i: int, j: int|
            0 <= i < j < fields@.len() ==> text_less(#[trigger] fields@[i].0@, #[trigger] fields@[j].0@))
            && forall|i: int| 0 <= i < fields@.len() ==> #[trigger] members_ordered(fields@[i].1),
        _ => true,
    }
}

/// Whether arrays and objects are nested in `v` at most `n` deep.
pub open spec fn nested_within(v: JsonValue, n: int) -> bool
    decreases v,
{
    match v {
        JsonValue::Array(items) => n > 0 && forall|i: int|
            0 <= i < items@.len() ==> #[trigger] nested_within(items@[i], n - 1),
        JsonValue::Object(fields) => n > 0 && forall|i: int|
            0 <= i < fields@.len() ==> #[trigger] nested_within(fields@[i].1, n - 1),
        _ => true,
    }
}

/// Parses `text` with `serde_json::from_str` into a `serde_json::Value`
/// and takes it into the model; `None` where serde_json reports an error.
/// The result is a function of the text, named `json_parse_result`: the
/// JSON grammar is serde_json's. Its objects come from a `serde_json::Map`,
/// a `BTreeMap`, so their members are in increasing order of name.
#[verifier::external_body]
pub(crate) fn parse_json(text: &str) -> (res: Option<JsonValue>)
    ensures
        res == json_parse_result(text@),
        res matches Some(v) ==> members_ordered(v),
{
    serde_json::from_str::<serde_json::Value>(text).ok().map(value_into_model)
}

/// Whether a value holds no `OtherNumber`, so that the writer can print it.
pub open spec fn writable(v: JsonValue) -> bool
    decreases v,
{
    match v {
        JsonValue::OtherNumber => false,
        JsonValue::Array(items) => forall|i: int|
            0 <= i < items@.len() ==> #[trigger] writable(items@[i]),
        JsonValue::Object(fields) => forall|i: int|
            0 <= i < fields@.len() ==> #[trigger] writable(fields@[i].1),
        _ => true,
    }
}

/// Prints `v` with `serde_json::to_string_pretty`, after moving it into a
/// `serde_json::Value` (whose objects keep one entry per key, in key
/// order). The text is named `json_pretty_text`. Parsing it back with
/// `serde_json::from_str` gives `v` again where `v`'s members are already
/// in key order and it is nested less deep than the parser's limit of 128:
/// strings are escaped and unescaped, non-negative integers printed and
/// read as such, and the map keeps the order. The layout of the text is
/// not stated.
#[verifier::external_body]
pub(crate) fn to_pretty_string(v: &JsonValue) -> (s: String)
    requires
        writable(*v),
    ensures
        s@ == json_pretty_text(*v),
        members_ordered(*v) && nested_within(*v, 100) ==> json_parse_result(s@) == Some(*v),
{
    serde_json::to_string_pretty(&model_into_value(v)).unwrap_or_default()
}

/// The value of the first entry named `key`, if any.
pub open spec fn lookup(fields: Seq<(String, JsonValue)>, key: Seq<char>) -> Option<JsonValue>
    decreases fields.len(),
{
    if fields.len() == 0 {
        None
    } else if fields[0].0@ == key {
        Some(fields[0].1)
    } else {
        lookup(fields.drop_first(), key)
    }
}

impl JsonValue {
    /// `self[key]`: the member named `key` of an object, else `null`.
    pub open spec fn at_key(self, key: Seq<char>) -> JsonValue {
        match self {
            JsonValue::Object(fields) => match lookup(fields@, key) {
                Some(v) => v,
                None => JsonValue::Null,
            },
            _ => JsonValue::Null,
        }
    }

    /// `self[i]`: the element at `i` of an array, else `null`.
    pub open spec fn at_index(self, i: int) -> JsonValue {
        match self {
            JsonValue::Array(items) => if 0 <= i < items@.len() {
                items@[i]
            } else {
                JsonValue::Null
            },
            _ => JsonValue::Null,
        }
    }

    /// The text of a string value.
    pub open spec fn str_of(self) -> Option<Seq<char>> {
        match self {
            JsonValue::Str(s) => Some(s@),
            _ => None,
        }
    }

    /// Whether the value is `null`.
    pub open spec fn is_null(self) -> bool {
        self matches JsonValue::Null
    }

    /// The member of an object named `key`; `None` stands for `null`.
    pub fn get_key(&self, key: &str) -> (r: Option<&JsonValue>)
        ensures
            match r {
                Some(v) => *v == self.at_key(key@) && !self.at_key(key@).is_null(),
                None => self.at_key(key@).is_null(),
            },
    {
        match self {
            JsonValue::Object(fields) => {
                let n = fields.len();
                let mut i: usize = 0;
                assert(fields@.skip(0) =~= fields@);
                while i < n
                    invariant
                        n == fields@.len(),
                        i <= n,
                        lookup(fields@, key@) == lookup(fields@.skip(i as int), key@),
                        self.at_key(key@) == (match lookup(fields@, key@) {
                            Some(v) => v,
                            None => JsonValue::Null,
                        }),
                    decreases n - i,
                {
                    let entry = &fields[i];
                    proof {
                        assert(fields@.skip(i as int)[0] == fields@[i as int]);
                        assert(fields@.skip(i as int).drop_first() =~= fields@.skip(i + 1));
                    }
                    if str_eq(entry.0.as_str(), key) {
                        assert(lookup(fields@, key@) == Some(entry.1));
                        return match &entry.1 {
                            JsonValue::Null => None,
                            _ => Some(&entry.1),
                        };
                    }
                    i = i + 1;
                }
                assert(fields@.skip(n as int) =~= Seq::<(String, JsonValue)>::empty());
                None
            },
            _ => None,
        }
    }

    /// The element of an array at `i`; `None` stands for `null`.
    pub fn get_index(&self, i: usize) -> (r: Option<&JsonValue>)
        ensures
            match r {
                Some(v) => *v == self.at_index(i as int) && !self.at_index(i as int).is_null(),
                None => self.at_index(i as int).is_null(),
            },
    {
        match self {
            JsonValue::Array(items) => {
                if i < items.len() {
                    match &items[i] {
                        JsonValue::Null => None,
                        _ => Some(&items[i]),
                    }
                } else {
                    None
                }
            },
            _ => None,
        }
    }

    /// The text of a string value, as `Value::as_str`.
    pub fn as_str(&self) -> (r: Option<&str>)
        ensures
            match r {
                Some(s) => self.str_of() == Some(s@),
                None => self.str_of() is None,
            },
    {
        match self {
            JsonValue::Str(s) => Some(s.as_str()),
            _ => None,
        }
    }
}

/// The elements of an array value; nothing for any other value.
pub open spec fn array_items(v: JsonValue) -> Seq<JsonValue> {
    match v {
        JsonValue::Array(items) => items@,
        _ => Seq::empty(),
    }
}

/// The members of an object value; nothing for any other value.
pub open spec fn object_fields(v: JsonValue) -> Seq<(String, JsonValue)> {
    match v {
        JsonValue::Object(fields) => fields@,
        _ => Seq::empty(),
    }
}

/// `self[key]` read through an optional value, `None` standing for `null`.
pub open spec fn opt_at_key(v: Option<JsonValue>, key: Seq<char>) -> JsonValue {
    match v {
        Some(x) => x.at_key(key),
        None => JsonValue::Null,
    }
}

} // verus!
