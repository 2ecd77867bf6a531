//! A JSON document model that the library reads, and the two serde_json
//! operations it needs: parsing text and pretty-printing.

use vstd::prelude::*;
use crate::text::{chars_of, same_chars};

verus! {

/// The outside JSON value type of serde_json, carried only inside the
/// converting functions below.
#[verifier::external_type_specification]
#[verifier::external_body]
pub struct SerdeJsonValue(serde_json::Value);

/// A JSON document. Numbers keep the text serde_json prints for them; the
/// members of an object keep the order in which serde_json lists them (sorted
/// by key, each key once).
#[derive(Debug)]
pub enum Json {
    Null,
    Bool(bool),
    Number(String),
    Str(String),
    Array(Vec<Json>),
    Object(Vec<(String, Json)>),
}

/// The content of a JSON document: texts as character sequences.
pub enum JsonView {
    Null,
    Bool(bool),
    Number(Seq<char>),
    Str(Seq<char>),
    Array(Seq<JsonView>),
    Object(Seq<(Seq<char>, JsonView)>),
}

/// The content of a document.
pub open spec fn json_view(j: Json) -> JsonView
    decreases j,
{
    match j {
        Json::Null => JsonView::Null,
        Json::Bool(b) => JsonView::Bool(b),
        Json::Number(n) => JsonView::Number(n@),
        Json::Str(s) => JsonView::Str(s@),
        Json::Array(items) => JsonView::Array(
            Seq::new(
                items@.len(),
                |i: int|
                    if 0 <= i < items@.len() {
                        proof {
                            broadcast use vstd::std_specs::vec::axiom_vec_decreases_to_view;

                            assert(decreases_to!(items => items@));
                            assert(decreases_to!(items@ => items@[i]));
                        }
                        json_view(items@[i])
                    } else {
                        JsonView::Null
                    },
            ),
        ),
        Json::Object(entries) => JsonView::Object(
            Seq::new(
                entries@.len(),
                |i: int|
                    if 0 <= i < entries@.len() {
                        proof {
                            broadcast use vstd::std_specs::vec::axiom_vec_decreases_to_view;

                            assert(decreases_to!(entries => entries@));
                            assert(decreases_to!(entries@ => entries@[i]));
                            assert(decreases_to!(entries@[i] => entries@[i].1));
                        }
                        (entries@[i].0@, json_view(entries@[i].1))
                    } else {
                        (Seq::empty(), JsonView::Null)
                    },
            ),
        ),
    }
}

impl View for Json {
    type V = JsonView;

    open spec fn view(&self) -> JsonView {
        json_view(*self)
    }
}

/// The contents of a list of documents.
pub open spec fn views(items: Seq<Json>) -> Seq<JsonView> {
    items.map_values(|j: Json| j@)
}

/// The value of the first member named `key`, if any.
pub open spec fn member(entries: Seq<(Seq<char>, JsonView)>, key: Seq<char>) -> Option<JsonView>
    decreases entries.len(),
{
    if entries.len() == 0 {
        None
    } else if entries[0].0 == key {
        Some(entries[0].1)
    } else {
        member(entries.drop_first(), key)
    }
}

impl JsonView {
    /// `value.get(key)`: the member `key` of an object; `None` for a missing
    /// member or a value that is not an object (where `value[key]` gives null).
    pub open spec fn get_spec(self, key: Seq<char>) -> Option<JsonView> {
        match self {
            JsonView::Object(entries) => member(entries, key),
            _ => None,
        }
    }

    /// `value.as_str()`: the text of a string value.
    pub open spec fn str_spec(self) -> Option<Seq<char>> {
        match self {
            JsonView::Str(s) => Some(s),
            _ => None,
        }
    }

    /// `value[key].as_str()`: the text of the string member `key`, if any.
    pub open spec fn str_member(self, key: Seq<char>) -> Option<Seq<char>> {
        match self.get_spec(key) {
            Some(v) => v.str_spec(),
            None => None,
        }
    }

    /// `value.as_array()`: the items of an array value.
    pub open spec fn array_spec(self) -> Option<Seq<JsonView>> {
        match self {
            JsonView::Array(items) => Some(items),
            _ => None,
        }
    }
}

impl Json {
    /// The member `key` of an object.
    pub fn get(&self, key: &str) -> (r: Option<&Json>)
        ensures
            match r {
                Some(v) => self@.get_spec(key@) == Some(v@),
                None => self@.get_spec(key@) is None,
            },
    {
        match self {
            Json::Object(entries) => {
                let k = chars_of(key);
                let ghost all = match self@ {
                    JsonView::Object(e) => e,
                    _ => Seq::empty(),
                };
                assert(all.len() == entries.len());
                assert(all.skip(0) =~= all);
                let mut i: usize = 0;
                while i < entries.len()
                    invariant
                        i <= entries.len(),
                        k@ == key@,
                        all.len() == entries.len(),
                        forall|j: int| 0 <= j < entries.len() ==> #[trigger] all[j] == (entries@[j].0@, entries@[j].1@),
                        self@.get_spec(key@) == member(all, key@),
                        member(all, key@) == member(all.skip(i as int), key@),
                    decreases entries.len() - i,
                {
                    let name = chars_of(entries[i].0.as_str());
                    assert(all.skip(i as int)[0] == all[i as int]);
                    assert(all[i as int] == (entries@[i as int].0@, entries@[i as int].1@));
                    if same_chars(&name, &k) {
                        return Some(&entries[i].1);
                    }
                    assert(all.skip(i as int).drop_first() =~= all.skip(i + 1));
                    i = i + 1;
                }
                None
            },
            _ => None,
        }
    }

    /// The text of a string value.
    pub fn as_str(&self) -> (r: Option<&str>)
        ensures
            match r {
                Some(s) => self@.str_spec() == Some(s@),
                None => self@.str_spec() is None,
            },
    {
        match self {
            Json::Str(s) => Some(s.as_str()),
            _ => None,
        }
    }

    /// The items of an array value.
    pub fn as_array(&self) -> (r: Option<&Vec<Json>>)
        ensures
            match r {
                Some(items) => self@.array_spec() == Some(views(items@)),
                None => self@.array_spec() is None,
            },
    {
        match self {
            Json::Array(items) => {
                assert(self@.array_spec()->0 =~= views(items@));
                Some(items)
            },
            _ => None,
        }
    }

    /// The text of the string member `key`, if any.
    pub fn get_str(&self, key: &str) -> (r: Option<&str>)
        ensures
            match r {
                Some(s) => self@.str_member(key@) == Some(s@),
                None => self@.str_member(key@) is None,
            },
    {
        match self.get(key) {
            Some(v) => v.as_str(),
            None => None,
        }
    }
}

/// The content of what `serde_json::from_str::<serde_json::Value>` gives for a
/// text (`None` wherever serde_json rejects the text, whatever the error).
pub uninterp spec fn json_parse(text: Seq<char>) -> Option<JsonView>;

/// What `serde_json::to_string_pretty` prints for a document of this content.
pub uninterp spec fn json_pretty(value: JsonView) -> Seq<char>;

/// Converts a serde_json value into a `Json`, variant by variant.
#[verifier::external_body]
fn from_serde(value: serde_json::Value) -> Json {
    match value {
        serde_json::Value::Null => Json::Null,
        serde_json::Value::Bool(b) => Json::Bool(b),
        serde_json::Value::Number(n) => Json::Number(n.to_string()),
        serde_json::Value::String(s) => Json::Str(s),
        serde_json::Value::Array(items) => Json::Array(items.into_iter().map(from_serde).collect()),
        serde_json::Value::Object(m) => Json::Object(m.into_iter().map(|(k, v)| (k, from_serde(v))).collect()),
    }
}

/// Converts a `Json` into a serde_json value, variant by variant (a number
/// whose text serde_json does not read becomes null).
#[verifier::external_body]
fn to_serde(value: &Json) -> serde_json::Value {
    match value {
        Json::Null => serde_json::Value::Null,
        Json::Bool(b) => serde_json::Value::Bool(*b),
        Json::Number(n) => n.parse::<serde_json::Number>().map(serde_json::Value::Number).unwrap_or(serde_json::Value::Null),
        Json::Str(s) => serde_json::Value::String(s.clone()),
        Json::Array(items) => serde_json::Value::Array(items.iter().map(to_serde).collect()),
        Json::Object(m) => serde_json::Value::Object(m.iter().map(|(k, v)| (k.clone(), to_serde(v))).collect()),
    }
}

/// `serde_json::from_str::<serde_json::Value>`: the document the text holds,
/// or `None` where serde_json rejects it. The result is named `json_parse` of
/// the text; nothing more of JSON syntax is stated.
#[verifier::external_body]
pub(crate) fn parse_json(text: &str) -> (r: Option<Json>)
    ensures
        match r {
            Some(doc) => json_parse(text@) == Some(doc@),
            None => json_parse(text@) is None,
        },
{
    match serde_json::from_str::<serde_json::Value>(text) {
        Ok(v) => Some(from_serde(v)),
        Err(_) => None,
    }
}

/// `serde_json::to_string_pretty` (an empty text where it fails): the result
/// is named `json_pretty` of the document.
#[verifier::external_body]
pub(crate) fn pretty_json(value: &Json) -> (r: String)
    ensures
        r@ == json_pretty(value@),
{
    serde_json::to_string_pretty(&to_serde(value)).unwrap_or_default()
}

} // verus!
