//! JSON values as the library holds them: schemas and tool arguments.

use crate::decimal::{parse_integer, parsed_integer};
use crate::error::AgentError;
use crate::lookup::{lemma_position_found, lemma_position_missing, position};
use vstd::prelude::*;

verus! {

/// `serde_json::Value`: what the parser hands out. The library copies it into a [`Json`]
/// and looks into that.
#[verifier::external_type_specification]
#[verifier::external_body]
pub struct ExValue(serde_json::Value);

/// The mathematical model of a JSON value. An object is the ordered list of its members.
#[verifier::ext_equal]
pub enum JsonView {
    Null,
    Bool(bool),
    /// A number, by its JSON text.
    Number(Seq<char>),
    Text(Seq<char>),
    Array(Seq<JsonView>),
    Object(Seq<(Seq<char>, JsonView)>),
}

/// A JSON value. A number is held by its JSON text, so that none loses precision; an
/// object holds its members in order.
#[derive(Debug, PartialEq, Eq)]
pub enum Json {
    Null,
    Bool(bool),
    Number(String),
    Text(String),
    Array(Vec<Json>),
    Object(Vec<(String, Json)>),
}

/// The model of a value.
pub open spec fn json_view(j: Json) -> JsonView
    decreases j,
{
    match j {
        Json::Null => JsonView::Null,
        Json::Bool(b) => JsonView::Bool(b),
        Json::Number(n) => JsonView::Number(n@),
        Json::Text(s) => JsonView::Text(s@),
        Json::Array(items) => JsonView::Array(
            Seq::new(
                items@.len(),
                |i: int|
                    if 0 <= i < items@.len() {
                        json_view(items@[i])
                    } else {
                        JsonView::Null
                    },
            ),
        ),
        Json::Object(members) => JsonView::Object(
            Seq::new(
                members@.len(),
                |i: int|
                    if 0 <= i < members@.len() {
                        (members@[i].0@, json_view(members@[i].1))
                    } else {
                        (Seq::empty(), JsonView::Null)
                    },
            ),
        ),
    }
}

impl View for Json {
    type V = JsonView;

    open spec fn view(&self) -> JsonView {
        json_view(*self)
    }
}

/// The models of a list of values.
pub open spec fn views(items: Seq<Json>) -> Seq<JsonView> {
    items.map_values(|j: Json| j@)
}

/// The models of a list of members.
pub open spec fn member_views(members: Seq<(String, Json)>) -> Seq<(Seq<char>, JsonView)> {
    members.map_values(|m: (String, Json)| (m.0@, m.1@))
}

/// The keys of a list of members, in order.
pub open spec fn keys(members: Seq<(Seq<char>, JsonView)>) -> Seq<Seq<char>> {
    members.map_values(|m: (Seq<char>, JsonView)| m.0)
}

/// An array is modelled item by item.
pub proof fn lemma_array_view(items: Vec<Json>)
    ensures
        Json::Array(items)@ == JsonView::Array(views(items@)),
{
    let a = Json::Array(items)@;
    assert(a is Array);
    assert(a->Array_0 =~= views(items@));
}

/// An object is modelled member by member.
pub proof fn lemma_object_view(members: Vec<(String, Json)>)
    ensures
        Json::Object(members)@ == JsonView::Object(member_views(members@)),
{
    let o = Json::Object(members)@;
    assert(o is Object);
    assert(o->Object_0 =~= member_views(members@));
}

/// What `serde_json::from_str` makes of a text: the value that the text is the JSON of,
/// or nothing where it is no JSON.
pub uninterp spec fn parsed_json(text: Seq<char>) -> Option<JsonView>;

/// What a value of `serde_json` holds: a number by its text as `Number`'s `Display`
/// writes it, the members of an object in the order in which its map hands them out.
pub uninterp spec fn value_tree(value: serde_json::Value) -> JsonView;

/// Parses `text` with `serde_json::from_str`. Taken on trust: the result is a value
/// exactly where the text is JSON, and then the value that the text is the JSON of.
#[verifier::external_body]
fn value_from_str(text: &str) -> (r: Result<serde_json::Value, serde_json::Error>)
    ensures
        match r {
            Ok(value) => parsed_json(text@) == Some(value_tree(value)),
            Err(_) => parsed_json(text@) is None,
        },
{
    serde_json::from_str::<serde_json::Value>(text)
}

/// Copies a value of `serde_json` into a [`Json`], variant by variant, a number by
/// `Number`'s `to_string`. Taken on trust: the copy holds what the value holds.
#[verifier::external_body]
fn json_of_value(value: &serde_json::Value) -> (r: Json)
    ensures
        r@ == value_tree(*value),
{
    match value {
        serde_json::Value::Null => Json::Null,
        serde_json::Value::Bool(b) => Json::Bool(*b),
        serde_json::Value::Number(n) => Json::Number(n.to_string()),
        serde_json::Value::String(s) => Json::Text(s.clone()),
        serde_json::Value::Array(items) => Json::Array(items.iter().map(json_of_value).collect()),
        serde_json::Value::Object(members) => Json::Object(
            members.iter().map(|(key, member)| (key.clone(), json_of_value(member))).collect(),
        ),
    }
}

impl Clone for Json {
    /// A copy of the value.
    fn clone(&self) -> (r: Json)
        ensures
            r@ == self@,
        decreases self@,
    {
        match self {
            Json::Null => Json::Null,
            Json::Bool(b) => Json::Bool(*b),
            Json::Number(n) => Json::Number(n.clone()),
            Json::Text(s) => Json::Text(s.clone()),
            Json::Array(items) => {
                proof {
                    lemma_array_view(*items);
                }
                let mut copies: Vec<Json> = Vec::new();
                let mut i: usize = 0;
                while i < items.len()
                    invariant
                        i <= items.len(),
                        self@ == JsonView::Array(views(items@)),
                        views(copies@) =~= views(items@).take(i as int),
                    decreases items.len() - i,
                {
                    let ghost before = views(copies@);
                    assert(views(items@)[i as int] == items@[i as int]@);
                    assert(decreases_to!(self@ => self@->Array_0));
                    assert(decreases_to!(views(items@) => views(items@)[i as int]));
                    let copy = items[i].clone();
                    copies.push(copy);
                    assert(views(copies@) =~= before.push(copy@));
                    i += 1;
                }
                proof {
                    assert(views(items@).take(items.len() as int) =~= views(items@));
                    lemma_array_view(copies);
                }
                Json::Array(copies)
            },
            Json::Object(members) => {
                proof {
                    lemma_object_view(*members);
                }
                let mut copies: Vec<(String, Json)> = Vec::new();
                let mut i: usize = 0;
                while i < members.len()
                    invariant
                        i <= members.len(),
                        self@ == JsonView::Object(member_views(members@)),
                        member_views(copies@) =~= member_views(members@).take(i as int),
                    decreases members.len() - i,
                {
                    let ghost before = member_views(copies@);
                    assert(member_views(members@)[i as int].1 == members@[i as int].1@);
                    assert(decreases_to!(self@ => self@->Object_0));
                    assert(decreases_to!(member_views(members@) => member_views(
                        members@,
                    )[i as int]));
                    assert(decreases_to!(member_views(members@)[i as int] => member_views(
                        members@,
                    )[i as int].1));
                    let copy = members[i].1.clone();
                    copies.push((members[i].0.clone(), copy));
                    assert(member_views(copies@) =~= before.push((members@[i as int].0@, copy@)));
                    i += 1;
                }
                proof {
                    assert(member_views(members@).take(members.len() as int) =~= member_views(
                        members@,
                    ));
                    lemma_object_view(copies);
                }
                Json::Object(copies)
            },
        }
    }
}

impl JsonView {
    /// The member under `key`: the first one, where several share the key. `None` where
    /// there is none, or where the value is no object.
    pub open spec fn get(self, key: Seq<char>) -> Option<JsonView> {
        match self {
            JsonView::Object(members) => match position(keys(members), key) {
                Some(i) => Some(members[i].1),
                None => None,
            },
            _ => None,
        }
    }

    /// The integer that the value is: that of a number whose text is the text of an
    /// integer of 64 bits.
    pub open spec fn as_integer(self) -> Option<i64> {
        match self {
            JsonView::Number(n) => parsed_integer(n),
            _ => None,
        }
    }

    /// The object with `value` under `key`: in place of the member that has the key, or
    /// at the end where none has. A value that is no object is left as it is.
    pub open spec fn with_member(self, key: Seq<char>, value: JsonView) -> JsonView {
        match self {
            JsonView::Object(members) => match position(keys(members), key) {
                Some(i) => JsonView::Object(members.update(i, (key, value))),
                None => JsonView::Object(members.push((key, value))),
            },
            other => other,
        }
    }
}

impl Json {
    /// Reads `text` as JSON.
    pub fn parse(text: &str) -> (r: Result<Json, AgentError>)
        ensures
            match r {
                Ok(json) => parsed_json(text@) == Some(json@),
                Err(e) => parsed_json(text@) is None && e is Json,
            },
    {
        match value_from_str(text) {
            Ok(value) => Ok(json_of_value(&value)),
            Err(e) => Err(AgentError::Json(e)),
        }
    }

    /// The string `s` as a value.
    pub fn text(s: &str) -> (r: Json)
        ensures
            r@ == JsonView::Text(s@),
    {
        Json::Text(s.to_owned())
    }

    /// The array of `items`.
    pub fn array(items: Vec<Json>) -> (r: Json)
        ensures
            r@ == JsonView::Array(views(items@)),
    {
        proof {
            lemma_array_view(items);
        }
        Json::Array(items)
    }

    /// The object of `members`, in their order.
    pub fn object(members: Vec<(String, Json)>) -> (r: Json)
        ensures
            r@ == JsonView::Object(member_views(members@)),
    {
        proof {
            lemma_object_view(members);
        }
        Json::Object(members)
    }

    /// The object with `value` under `key`: in place of the member that has the key, or
    /// at the end where none has. A value that is no object is returned as it is.
    pub fn with_member(self, key: &str, value: Json) -> (r: Json)
        ensures
            r@ == self@.with_member(key@, value@),
    {
        match self {
            Json::Object(mut members) => {
                proof {
                    lemma_object_view(members);
                }
                let ghost before = members@;
                let wanted = key.to_owned();
                let mut i: usize = 0;
                while i < members.len()
                    invariant
                        i <= members.len(),
                        wanted@ == key@,
                        members@ == before,
                        self@ == JsonView::Object(member_views(before)),
                        forall|j: int| 0 <= j < i ==> keys(member_views(members@))[j] != key@,
                    decreases members.len() - i,
                {
                    if members[i].0 == wanted {
                        proof {
                            assert(keys(member_views(members@))[i as int] == key@);
                            lemma_position_found(keys(member_views(members@)), key@, i as int);
                        }
                        members.set(i, (wanted, value));
                        proof {
                            lemma_object_view(members);
                            assert(member_views(members@) =~= member_views(before).update(
                                i as int,
                                (key@, value@),
                            ));
                        }
                        return Json::Object(members);
                    }
                    i += 1;
                }
                proof {
                    lemma_position_missing(keys(member_views(members@)), key@);
                }
                members.push((wanted, value));
                proof {
                    lemma_object_view(members);
                    assert(member_views(members@) =~= member_views(before).push((key@, value@)));
                }
                Json::Object(members)
            },
            other => other,
        }
    }

    /// The member of an object under `key`.
    pub fn get(&self, key: &str) -> (r: Option<&Json>)
        ensures
            match r {
                Some(j) => self@.get(key@) == Some(j@),
                None => self@.get(key@) is None,
            },
    {
        match self {
            Json::Object(members) => {
                proof {
                    lemma_object_view(*members);
                }
                let wanted = key.to_owned();
                let mut i: usize = 0;
                while i < members.len()
                    invariant
                        i <= members.len(),
                        wanted@ == key@,
                        self@ == JsonView::Object(member_views(members@)),
                        forall|j: int| 0 <= j < i ==> keys(member_views(members@))[j] != key@,
                    decreases members.len() - i,
                {
                    if members[i].0 == wanted {
                        proof {
                            let mv = member_views(members@);
                            assert(keys(mv)[i as int] == key@);
                            lemma_position_found(keys(mv), key@, i as int);
                            assert(mv[i as int].1 == members@[i as int].1@);
                            assert(self@.get(key@) == Some(mv[i as int].1));
                        }
                        return Some(&members[i].1);
                    }
                    i += 1;
                }
                proof {
                    lemma_position_missing(keys(member_views(members@)), key@);
                }
                None
            },
            _ => None,
        }
    }

    /// The string that the value is, if it is one.
    pub fn as_text(&self) -> (r: Option<&String>)
        ensures
            match r {
                Some(s) => self@ == JsonView::Text(s@),
                None => !(self@ is Text),
            },
    {
        match self {
            Json::Text(s) => Some(s),
            _ => None,
        }
    }

    /// The items of the value, if it is an array.
    pub fn as_array(&self) -> (r: Option<&Vec<Json>>)
        ensures
            match r {
                Some(items) => self@ == JsonView::Array(views(items@)),
                None => !(self@ is Array),
            },
    {
        match self {
            Json::Array(items) => {
                proof {
                    lemma_array_view(*items);
                }
                Some(items)
            },
            _ => None,
        }
    }

    /// The members of the value, if it is an object.
    pub fn as_object(&self) -> (r: Option<&Vec<(String, Json)>>)
        ensures
            match r {
                Some(members) => self@ == JsonView::Object(member_views(members@)),
                None => !(self@ is Object),
            },
    {
        match self {
            Json::Object(members) => {
                proof {
                    lemma_object_view(*members);
                }
                Some(members)
            },
            _ => None,
        }
    }

    /// The truth value that the value is, if it is one.
    pub fn as_bool(&self) -> (r: Option<bool>)
        ensures
            match r {
                Some(b) => self@ == JsonView::Bool(b),
                None => !(self@ is Bool),
            },
    {
        match self {
            Json::Bool(b) => Some(*b),
            _ => None,
        }
    }

    /// The integer that the value is, if it is a number that is written as an integer
    /// and fits in 64 bits.
    pub fn as_integer(&self) -> (r: Option<i64>)
        ensures
            r == self@.as_integer(),
    {
        match self {
            Json::Number(n) => parse_integer(n.as_str()),
            _ => None,
        }
    }

    /// Whether the value is `null`.
    pub fn is_null(&self) -> (r: bool)
        ensures
            r == (self@ is Null),
    {
        match self {
            Json::Null => true,
            _ => false,
        }
    }
}

} // verus!
