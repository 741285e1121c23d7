//! The top level of a JSON document, as far as the agent's decisions read it:
//! whether the text is JSON at all, and the string and boolean members of an
//! object.
use vstd::prelude::*;
use crate::text::{chars_eq_str, string_of, to_chars};

verus! {

/// A member value of a JSON object: a string, a boolean, or anything else.
#[derive(Debug)]
pub enum JsonLeaf {
    Text(String),
    Flag(bool),
    Other,
}

/// The mathematical view of a `JsonLeaf`.
pub enum JsonLeafView {
    Text(Seq<char>),
    Flag(bool),
    Other,
}

impl DeepView for JsonLeaf {
    type V = JsonLeafView;

    open spec fn deep_view(&self) -> JsonLeafView {
        match self {
            JsonLeaf::Text(s) => JsonLeafView::Text(s@),
            JsonLeaf::Flag(b) => JsonLeafView::Flag(*b),
            JsonLeaf::Other => JsonLeafView::Other,
        }
    }
}

/// A text read as JSON: not JSON, an object with its members in order, an
/// array with its string items (`None` for an item of another type), or
/// another JSON value.
#[derive(Debug)]
pub enum JsonShape {
    Invalid,
    Object(Vec<(String, JsonLeaf)>),
    List(Vec<Option<String>>),
    NotObject,
}

/// The mathematical view of a `JsonShape`.
pub enum JsonShapeView {
    Invalid,
    Object(Seq<(Seq<char>, JsonLeafView)>),
    List(Seq<Option<Seq<char>>>),
    NotObject,
}

impl DeepView for JsonShape {
    type V = JsonShapeView;

    open spec fn deep_view(&self) -> JsonShapeView {
        match self {
            JsonShape::Invalid => JsonShapeView::Invalid,
            JsonShape::Object(v) => JsonShapeView::Object(v.deep_view()),
            JsonShape::List(v) => JsonShapeView::List(v.deep_view()),
            JsonShape::NotObject => JsonShapeView::NotObject,
        }
    }
}

/// What `serde_json::from_str::<serde_json::Value>` makes of a text, read
/// down to the top-level members of an object or items of an array.
pub uninterp spec fn json_shape_of(text: Seq<char>) -> JsonShapeView;

/// `serde_json::from_str::<serde_json::Value>` on a text: a parse error is
/// `Invalid`; an object is handed out as its members, each string or
/// boolean member with its value and any other as `Other`; an array as its
/// items, each string with its value and any other as `None`; any other
/// value is `NotObject`. The result is named `json_shape_of` of the text.
#[verifier::external_body]
pub(crate) fn parse_json_shape(text: &str) -> (r: JsonShape)
    ensures
        r.deep_view() == json_shape_of(text@),
{
    match serde_json::from_str::<serde_json::Value>(text) {
        Ok(serde_json::Value::Object(map)) => JsonShape::Object(map.into_iter().map(|(k, v)| (k, match v {
            serde_json::Value::String(s) => JsonLeaf::Text(s),
            serde_json::Value::Bool(b) => JsonLeaf::Flag(b),
            _ => JsonLeaf::Other,
        })).collect()),
        Ok(serde_json::Value::Array(items)) => JsonShape::List(items.into_iter().map(|v| match v {
            serde_json::Value::String(s) => Some(s),
            _ => None,
        }).collect()),
        Ok(_) => JsonShape::NotObject,
        Err(_) => JsonShape::Invalid,
    }
}

/// The value of the first member with the given key.
pub open spec fn field_of(fields: Seq<(Seq<char>, JsonLeafView)>, key: Seq<char>) -> Option<JsonLeafView>
    decreases fields.len(),
{
    if fields.len() == 0 {
        None
    } else if fields[0].0 == key {
        Some(fields[0].1)
    } else {
        field_of(fields.skip(1), key)
    }
}

/// The member of a JSON document with the given key; none when the document
/// is not an object or has no such member.
pub open spec fn shape_field(shape: JsonShapeView, key: Seq<char>) -> Option<JsonLeafView> {
    match shape {
        JsonShapeView::Object(f) => field_of(f, key),
        _ => None,
    }
}

/// The string member of a JSON document with the given key.
pub open spec fn shape_text(shape: JsonShapeView, key: Seq<char>) -> Option<Seq<char>> {
    match shape_field(shape, key) {
        Some(JsonLeafView::Text(s)) => Some(s),
        _ => None,
    }
}

/// The string member of a JSON text with the given key.
pub open spec fn json_text_field(text: Seq<char>, key: Seq<char>) -> Option<Seq<char>> {
    shape_text(json_shape_of(text), key)
}

fn find_field(fields: &Vec<(String, JsonLeaf)>, key: &str) -> (r: Option<usize>)
    ensures
        match r {
            Some(i) => i < fields@.len() && field_of(fields.deep_view(), key@) == Some(
                fields.deep_view()[i as int].1,
            ),
            None => field_of(fields.deep_view(), key@) is None,
        },
{
    let ghost all = fields.deep_view();
    let mut i: usize = 0;
    assert(all.skip(0) =~= all);
    while i < fields.len()
        invariant
            i <= fields@.len(),
            all == fields.deep_view(),
            all.len() == fields@.len(),
            field_of(all, key@) == field_of(all.skip(i as int), key@),
        decreases fields@.len() - i,
    {
        let ghost rest = all.skip(i as int);
        assert(rest[0] == all[i as int]);
        assert(all[i as int].0 == fields@[i as int].0@);
        let k = to_chars(fields[i].0.as_str());
        if chars_eq_str(k.as_slice(), key) {
            return Some(i);
        }
        assert(rest.skip(1) =~= all.skip(i + 1));
        i = i + 1;
    }
    assert(all.skip(i as int).len() == 0);
    None
}

/// The string member with the given key, when the document is an object
/// that has one.
pub fn text_member(shape: &JsonShape, key: &str) -> (r: Option<String>)
    ensures
        r.deep_view() == shape_text(shape.deep_view(), key@),
{
    match shape {
        JsonShape::Object(fields) => match find_field(fields, key) {
            Some(i) => match &fields[i].1 {
                JsonLeaf::Text(s) => Some(s.clone()),
                _ => None,
            },
            None => None,
        },
        _ => None,
    }
}

/// The boolean member with the given key, when the document is an object
/// that has one.
pub fn flag_member(shape: &JsonShape, key: &str) -> (r: Option<bool>)
    ensures
        r == (match shape_field(shape.deep_view(), key@) {
            Some(JsonLeafView::Flag(b)) => Some(b),
            _ => None,
        }),
{
    match shape {
        JsonShape::Object(fields) => match find_field(fields, key) {
            Some(i) => match &fields[i].1 {
                JsonLeaf::Flag(v) => Some(*v),
                _ => None,
            },
            None => None,
        },
        _ => None,
    }
}

/// Whether the member with the given key is the boolean `true`.
pub fn flag_member_is_true(shape: &JsonShape, key: &str) -> (b: bool)
    ensures
        b == (shape_field(shape.deep_view(), key@) == Some(JsonLeafView::Flag(true))),
{
    match shape {
        JsonShape::Object(fields) => match find_field(fields, key) {
            Some(i) => match &fields[i].1 {
                JsonLeaf::Flag(v) => *v,
                _ => false,
            },
            None => false,
        },
        _ => false,
    }
}

/// Whether a text parses as JSON.
pub fn is_json(text: &str) -> (b: bool)
    ensures
        b == !(json_shape_of(text@) is Invalid),
{
    match parse_json_shape(text) {
        JsonShape::Invalid => false,
        _ => true,
    }
}

/// A JSON text as a list of strings: an array whose items are all strings.
pub open spec fn string_list_of(text: Seq<char>) -> Option<Seq<Seq<char>>> {
    match json_shape_of(text) {
        JsonShapeView::List(items) => if forall|i: int| 0 <= i < items.len() ==> #[trigger] items[i] is Some {
            Some(items.map_values(|o: Option<Seq<char>>| o->0))
        } else {
            None
        },
        _ => None,
    }
}

/// A JSON text read as a list of strings, when it is an array of strings.
pub fn parse_string_list(text: &str) -> (r: Option<Vec<String>>)
    ensures
        r.deep_view() == string_list_of(text@),
{
    let shape = parse_json_shape(text);
    match shape {
        JsonShape::List(items) => {
            let ghost iv = items.deep_view();
            assert(json_shape_of(text@) == JsonShapeView::List(iv));
            assert(iv.len() == items@.len());
            let mut out: Vec<String> = Vec::new();
            let mut i: usize = 0;
            while i < items.len()
                invariant
                    i <= items@.len(),
                    iv == items.deep_view(),
                    iv.len() == items@.len(),
                    json_shape_of(text@) == JsonShapeView::List(iv),
                    forall|k: int| 0 <= k < i ==> #[trigger] iv[k] is Some,
                    out.deep_view() == iv.take(i as int).map_values(|o: Option<Seq<char>>| o->0),
                decreases items@.len() - i,
            {
                match &items[i] {
                    Some(s) => {
                        let ghost before = out.deep_view();
                        assert(iv[i as int] == Some(s@));
                        out.push(string_of(s.as_str()));
                        assert(out.deep_view() =~= before.push(s@));
                        assert(iv.take(i + 1).map_values(|o: Option<Seq<char>>| o->0) =~= iv.take(
                            i as int,
                        ).map_values(|o: Option<Seq<char>>| o->0).push(s@));
                    },
                    None => {
                        assert(iv[i as int] == None::<Seq<char>>);
                        assert(!(iv[i as int] is Some));
                        assert(!(forall|k: int| 0 <= k < iv.len() ==> #[trigger] iv[k] is Some)) by {
                            if forall|k: int| 0 <= k < iv.len() ==> #[trigger] iv[k] is Some {
                                assert(iv[i as int] is Some);
                            }
                        }
                        return None;
                    },
                }
                i = i + 1;
            }
            assert(iv.take(items@.len() as int) =~= iv);
            Some(out)
        },
        _ => None,
    }
}

} // verus!
