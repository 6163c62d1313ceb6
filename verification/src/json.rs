//! JSON values.
//!
//! `Json` holds a value as plain data; `serde_json` reads and writes its text.
use vstd::prelude::*;

use serde_json::{from_str, Number, Value};

use crate::text::str_eq;

verus! {

/// A JSON value. A number is held as the smallest of three kinds that fits: an
/// unsigned integer, a negative integer, or the text of a decimal.
#[derive(Debug, PartialEq)]
pub enum Json {
    Null,
    Bool(bool),
    UInt(u64),
    Int(i64),
    Float(String),
    Str(String),
    Array(Vec<Json>),
    Object(Vec<(String, Json)>),
}

/// The mathematical model of a JSON value.
pub enum JsonModel {
    Null,
    Bool(bool),
    UInt(u64),
    Int(i64),
    Float(Seq<char>),
    Str(Seq<char>),
    Array(Seq<JsonModel>),
    Object(Seq<(Seq<char>, JsonModel)>),
}

/// The model of a JSON value.
pub open spec fn json_model(j: Json) -> JsonModel
    decreases j,
{
    match j {
        Json::Null => JsonModel::Null,
        Json::Bool(b) => JsonModel::Bool(b),
        Json::UInt(n) => JsonModel::UInt(n),
        Json::Int(n) => JsonModel::Int(n),
        Json::Float(s) => JsonModel::Float(s@),
        Json::Str(s) => JsonModel::Str(s@),
        Json::Array(v) => JsonModel::Array(
            Seq::new(
                v@.len(),
                |i: int|
                    if 0 <= i < v@.len() {
                        json_model(v@[i])
                    } else {
                        JsonModel::Null
                    },
            ),
        ),
        Json::Object(v) => JsonModel::Object(
            Seq::new(
                v@.len(),
                |i: int|
                    if 0 <= i < v@.len() {
                        (v@[i].0@, json_model(v@[i].1))
                    } else {
                        (Seq::empty(), JsonModel::Null)
                    },
            ),
        ),
    }
}

impl View for Json {
    type V = JsonModel;

    open spec fn view(&self) -> JsonModel {
        json_model(*self)
    }
}

/// The value that `serde_json` reads from a text, `None` where it refuses it.
pub uninterp spec fn json_parse(text: Seq<char>) -> Option<JsonModel>;

/// The compact text that `serde_json` writes for a value.
pub uninterp spec fn json_print(value: JsonModel) -> Seq<char>;

/// The indented text that `serde_json` writes for a value.
pub uninterp spec fn json_print_pretty(value: JsonModel) -> Seq<char>;

/// A value of `serde_json`, which the functions below convert from and to.
#[verifier::external_type_specification]
#[verifier::external_body]
pub struct ExValue(serde_json::Value);

/// Converts a `serde_json::Value`, its members included. A number is taken by
/// `Number::as_u64`, else by `Number::as_i64`, else as the text that the number
/// is written with. Nothing is stated of the result: `parse_json` names it.
#[verifier::external_body]
fn from_value(v: Value) -> Json {
    match v {
        Value::Null => Json::Null,
        Value::Bool(b) => Json::Bool(b),
        Value::Number(n) => n.as_u64().map(Json::UInt).or(n.as_i64().map(Json::Int)).unwrap_or(Json::Float(n.to_string())),
        Value::String(s) => Json::Str(s),
        Value::Array(a) => Json::Array(a.into_iter().map(from_value).collect()),
        Value::Object(m) => Json::Object(m.into_iter().map(|(k, x)| (k, from_value(x))).collect()),
    }
}

/// Converts to a `serde_json::Value`, members included. The text of a decimal
/// becomes the nearest number by `Number::from_f64`, or `null` where it is none
/// or no finite one. Nothing is stated of the result: `json_text` and
/// `json_pretty` name what is written for it.
#[verifier::external_body]
fn to_value(j: &Json) -> Value {
    match j {
        Json::Null => Value::Null,
        Json::Bool(b) => Value::from(*b),
        Json::UInt(n) => Value::from(*n),
        Json::Int(n) => Value::from(*n),
        Json::Float(t) => t.parse().ok().and_then(Number::from_f64).map_or(Value::Null, Value::Number),
        Json::Str(s) => Value::from(s.as_str()),
        Json::Array(a) => a.iter().map(to_value).collect(),
        Json::Object(o) => o.iter().map(|(k, x)| (k.clone(), to_value(x))).collect(),
    }
}

/// `serde_json::from_str`: reads a value from its text. What is read depends on
/// the text alone.
#[verifier::external_body]
pub(crate) fn parse_json(text: &str) -> (r: Option<Json>)
    ensures
        (match r {
            Some(j) => Some(j@),
            None => None,
        }) == json_parse(text@),
{
    from_str(text).ok().map(from_value)
}

/// Whether a value is an array of strings.
pub open spec fn string_array(j: JsonModel) -> bool {
    j is Array && forall|i: int| 0 <= i < j->Array_0.len() ==> (#[trigger] j->Array_0[i]) is Str
}

/// `serde_json::Value`'s `to_string`: the compact text of a value, which depends
/// on the value alone. The text of an array of strings is read back as that array.
#[verifier::external_body]
pub(crate) fn json_text(j: &Json) -> (r: String)
    ensures
        r@ == json_print(j@),
        string_array(j@) ==> json_parse(r@) == Some(j@),
{
    to_value(j).to_string()
}

/// `serde_json::to_string_pretty`: the indented text of a value, which depends
/// on the value alone.
#[verifier::external_body]
pub(crate) fn json_pretty(j: &Json) -> (r: String)
    ensures
        r@ == json_print_pretty(j@),
{
    serde_json::to_string_pretty(&to_value(j)).unwrap_or_default()
}

/// The value of the first member of an object with the given name.
pub open spec fn member(members: Seq<(Seq<char>, JsonModel)>, key: Seq<char>) -> Option<JsonModel>
    decreases members.len(),
{
    if members.len() == 0 {
        None
    } else if members[0].0 == key {
        Some(members[0].1)
    } else {
        member(members.skip(1), key)
    }
}

impl JsonModel {
    /// The member of an object; `None` for a value that is no object.
    pub open spec fn field(self, key: Seq<char>) -> Option<JsonModel> {
        match self {
            JsonModel::Object(m) => member(m, key),
            _ => None,
        }
    }

    /// The text of a string value.
    pub open spec fn text(self) -> Option<Seq<char>> {
        match self {
            JsonModel::Str(s) => Some(s),
            _ => None,
        }
    }

    /// The number of an unsigned integer value.
    pub open spec fn unsigned(self) -> Option<u64> {
        match self {
            JsonModel::UInt(n) => Some(n),
            _ => None,
        }
    }

    /// The truth value of a boolean value.
    pub open spec fn boolean(self) -> Option<bool> {
        match self {
            JsonModel::Bool(b) => Some(b),
            _ => None,
        }
    }
}

/// The model of an optional value.
pub open spec fn opt_model(j: Option<&Json>) -> Option<JsonModel> {
    match j {
        Some(v) => Some(v@),
        None => None,
    }
}

impl Json {
    /// Reads a value from its text; `None` where the text is no JSON.
    pub fn parse(text: &str) -> (r: Option<Json>)
        ensures
            (match r {
                Some(j) => Some(j@),
                None => None,
            }) == json_parse(text@),
    {
        parse_json(text)
    }

    /// The compact text of the value.
    pub fn to_text(&self) -> (r: String)
        ensures
            r@ == json_print(self@),
            string_array(self@) ==> json_parse(r@) == Some(self@),
    {
        json_text(self)
    }

    /// The indented text of the value.
    pub fn to_pretty(&self) -> (r: String)
        ensures
            r@ == json_print_pretty(self@),
    {
        json_pretty(self)
    }

    /// The models of the members of an object.
    pub open spec fn members(v: Seq<(String, Json)>) -> Seq<(Seq<char>, JsonModel)> {
        v.map_values(|e: (String, Json)| (e.0@, e.1@))
    }

    /// The models of the items of an array.
    pub open spec fn items(v: Seq<Json>) -> Seq<JsonModel> {
        v.map_values(|e: Json| e@)
    }

    /// The model of an object is made of the models of its members.
    pub proof fn lemma_object(v: Vec<(String, Json)>)
        ensures
            (Json::Object(v))@ == JsonModel::Object(Self::members(v@)),
    {
        let m = Json::Object(v)@;
        reveal_with_fuel(json_model, 2);
        assert(m->Object_0 =~= Self::members(v@));
    }

    /// The model of an array is made of the models of its items.
    pub proof fn lemma_array(v: Vec<Json>)
        ensures
            (Json::Array(v))@ == JsonModel::Array(Self::items(v@)),
    {
        let m = Json::Array(v)@;
        reveal_with_fuel(json_model, 2);
        assert(m->Array_0 =~= Self::items(v@));
    }

    /// The member of an object with the given name.
    pub fn get(&self, key: &str) -> (r: Option<&Json>)
        ensures
            opt_model(r) == self@.field(key@),
    {
        match self {
            Json::Object(v) => {
                proof {
                    Self::lemma_object(*v);
                }
                let ghost all = Self::members(v@);
                let mut i: usize = 0;
                proof {
                    assert(all.skip(0) =~= all);
                }
                while i < v.len()
                    invariant
                        i <= v.len(),
                        all == Self::members(v@),
                        self@.field(key@) == member(all, key@),
                        member(all.skip(i as int), key@) == member(all, key@),
                    decreases v.len() - i,
                {
                    proof {
                        assert(all.skip(i as int)[0] == (v@[i as int].0@, v@[i as int].1@));
                        assert(all.skip(i as int).skip(1) =~= all.skip(i + 1));
                    }
                    if str_eq(v[i].0.as_str(), key) {
                        return Some(&v[i].1);
                    }
                    i = i + 1;
                }
                None
            },
            _ => None,
        }
    }

    /// The text of a string value.
    pub fn as_str(&self) -> (r: Option<&str>)
        ensures
            (match r {
                Some(s) => Some(s@),
                None => None,
            }) == self@.text(),
    {
        match self {
            Json::Str(s) => Some(s.as_str()),
            _ => None,
        }
    }

    /// The number of an unsigned integer value.
    pub fn as_u64(&self) -> (r: Option<u64>)
        ensures
            r == self@.unsigned(),
    {
        match self {
            Json::UInt(n) => Some(*n),
            _ => None,
        }
    }

    /// The truth value of a boolean value.
    pub fn as_bool(&self) -> (r: Option<bool>)
        ensures
            r == self@.boolean(),
    {
        match self {
            Json::Bool(b) => Some(*b),
            _ => None,
        }
    }

    /// The items of an array value.
    pub fn as_array(&self) -> (r: Option<&Vec<Json>>)
        ensures
            match r {
                Some(v) => self@ == JsonModel::Array(Self::items(v@)),
                None => !(self@ is Array),
            },
    {
        match self {
            Json::Array(v) => {
                proof {
                    Self::lemma_array(*v);
                }
                Some(v)
            },
            _ => None,
        }
    }

    /// The members of an object value.
    pub fn as_object(&self) -> (r: Option<&Vec<(String, Json)>>)
        ensures
            match r {
                Some(v) => self@ == JsonModel::Object(Self::members(v@)),
                None => !(self@ is Object),
            },
    {
        match self {
            Json::Object(v) => {
                proof {
                    Self::lemma_object(*v);
                }
                Some(v)
            },
            _ => None,
        }
    }

    /// A string value.
    pub fn string(s: &str) -> (r: Json)
        ensures
            r@ == JsonModel::Str(s@),
    {
        Json::Str(s.to_string())
    }

    /// An object value with the given members.
    pub fn object(v: Vec<(String, Json)>) -> (r: Json)
        ensures
            r@ == JsonModel::Object(Self::members(v@)),
    {
        proof {
            Self::lemma_object(v);
        }
        Json::Object(v)
    }

    /// An array value with the given items.
    pub fn array(v: Vec<Json>) -> (r: Json)
        ensures
            r@ == JsonModel::Array(Self::items(v@)),
    {
        proof {
            Self::lemma_array(v);
        }
        Json::Array(v)
    }
}

impl Clone for Json {
    fn clone(&self) -> (r: Json)
        ensures
            r@ == self@,
        decreases self,
    {
        match self {
            Json::Null => Json::Null,
            Json::Bool(b) => Json::Bool(*b),
            Json::UInt(n) => Json::UInt(*n),
            Json::Int(n) => Json::Int(*n),
            Json::Float(s) => Json::Float(s.clone()),
            Json::Str(s) => Json::Str(s.clone()),
            Json::Array(v) => {
                let mut out: Vec<Json> = Vec::new();
                let mut i: usize = 0;
                while i < v.len()
                    invariant
                        i <= v.len(),
                        out.len() == i,
                        *self == Json::Array(*v),
                        forall|k: int| 0 <= k < i ==> (#[trigger] out@[k])@ == v@[k]@,
                    decreases v.len() - i,
                {
                    proof {
                        assert(decreases_to!(*self => (*self)->Array_0));
                        assert(decreases_to!(*v => v[i as int]));
                    }
                    let c = v[i].clone();
                    out.push(c);
                    i = i + 1;
                }
                proof {
                    Self::lemma_array(*v);
                    Self::lemma_array(out);
                    assert(Self::items(out@) =~= Self::items(v@));
                }
                Json::Array(out)
            },
            Json::Object(v) => {
                let mut out: Vec<(String, Json)> = Vec::new();
                let mut i: usize = 0;
                while i < v.len()
                    invariant
                        i <= v.len(),
                        out.len() == i,
                        *self == Json::Object(*v),
                        forall|k: int|
                            0 <= k < i ==> (#[trigger] out@[k]).0@ == v@[k].0@ && out@[k].1@
                                == v@[k].1@,
                    decreases v.len() - i,
                {
                    proof {
                        assert(decreases_to!(*self => (*self)->Object_0));
                        assert(decreases_to!(*v => v[i as int]));
                        assert(decreases_to!(v[i as int] => v[i as int].1));
                    }
                    let c = v[i].1.clone();
                    out.push((v[i].0.clone(), c));
                    i = i + 1;
                }
                proof {
                    Self::lemma_object(*v);
                    Self::lemma_object(out);
                    assert(Self::members(out@) =~= Self::members(v@));
                }
                Json::Object(out)
            },
        }
    }
}

} // verus!
