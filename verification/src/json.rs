use vstd::prelude::*;
use vstd::string::*;
use crate::chars::str_eq;

verus! {

/// A parsed log line, reduced to what the library reads: strings,
/// integers that fit `i64`, arrays and objects. Booleans, floats and
/// numbers outside `i64` all act alike here, as `Other`.
pub enum JsonLite {
    Null,
    Text(String),
    Int(i64),
    Other,
    Array(Vec<JsonLite>),
    Object(Vec<(String, JsonLite)>),
}

/// The mathematical shape of a `JsonLite` value.
#[verifier::ext_equal]
pub enum JsonView {
    Null,
    Text(Seq<char>),
    Int(i64),
    Other,
    Array(Seq<JsonView>),
    Object(Seq<(Seq<char>, JsonView)>),
}

pub open spec fn jview_seq(s: Seq<JsonLite>) -> Seq<JsonView>
    decreases s,
{
    Seq::new(
        s.len(),
        |i: int|
            if 0 <= i < s.len() {
                jview(s[i])
            } else {
                JsonView::Null
            },
    )
}

pub open spec fn jview_fields(s: Seq<(String, JsonLite)>) -> Seq<(Seq<char>, JsonView)>
    decreases s,
{
    Seq::new(
        s.len(),
        |i: int|
            if 0 <= i < s.len() {
                (s[i].0@, jview(s[i].1))
            } else {
                (Seq::<char>::empty(), JsonView::Null)
            },
    )
}

pub open spec fn jview(v: JsonLite) -> JsonView
    decreases v,
{
    match v {
        JsonLite::Null => JsonView::Null,
        JsonLite::Text(s) => JsonView::Text(s@),
        JsonLite::Int(n) => JsonView::Int(n),
        JsonLite::Other => JsonView::Other,
        JsonLite::Array(items) => JsonView::Array(jview_seq(items@)),
        JsonLite::Object(fields) => JsonView::Object(jview_fields(fields@)),
    }
}

impl View for JsonLite {
    type V = JsonView;

    open spec fn view(&self) -> JsonView {
        jview(*self)
    }
}

/// The value under the first field named `key`.
pub open spec fn obj_get(fields: Seq<(Seq<char>, JsonView)>, key: Seq<char>) -> Option<JsonView>
    decreases fields.len(),
{
    if fields.len() == 0 {
        None
    } else if fields[0].0 == key {
        Some(fields[0].1)
    } else {
        obj_get(fields.drop_first(), key)
    }
}

/// Field lookup: `None` on anything that is not an object, as well as
/// on an object without the field.
pub open spec fn get_field(v: JsonView, key: Seq<char>) -> Option<JsonView> {
    match v {
        JsonView::Object(fields) => obj_get(fields, key),
        _ => None,
    }
}

pub open spec fn as_text(v: JsonView) -> Option<Seq<char>> {
    match v {
        JsonView::Text(s) => Some(s),
        _ => None,
    }
}

/// The string under `key`, or the empty string when the field is
/// absent or not a string.
pub open spec fn text_field_or_empty(v: JsonView, key: Seq<char>) -> Seq<char> {
    match get_field(v, key) {
        Some(JsonView::Text(s)) => s,
        _ => Seq::empty(),
    }
}

/// The field's value, with `Null` standing in for an absent one.
pub open spec fn field_or_null(v: JsonView, key: Seq<char>) -> JsonView {
    match get_field(v, key) {
        Some(x) => x,
        None => JsonView::Null,
    }
}

pub fn field_of<'a>(v: &'a JsonLite, key: &str) -> (r: Option<&'a JsonLite>)
    ensures
        match r {
            Option::Some(x) => get_field(v@, key@) == Some(x@),
            Option::None => get_field(v@, key@) is None,
        },
{
    match v {
        JsonLite::Object(fields) => {
            let ghost fv = jview_fields(fields@);
            proof {
                assert(fv.skip(0) =~= fv);
            }
            let n = fields.len();
            let mut i: usize = 0;
            while i < n
                invariant
                    n == fields@.len(),
                    i <= n,
                    fv == jview_fields(fields@),
                    v@ == JsonView::Object(fv),
                    obj_get(fv, key@) == obj_get(fv.skip(i as int), key@),
                decreases n - i,
            {
                let pair = &fields[i];
                if str_eq(pair.0.as_str(), key) {
                    proof {
                        assert(fv[i as int] == (fields@[i as int].0@, jview(fields@[i as int].1)));
                        assert(fv.skip(i as int)[0] == fv[i as int]);
                        assert(obj_get(fv.skip(i as int), key@) == Some(fv[i as int].1));
                        assert(v@ == JsonView::Object(fv));
                        assert(get_field(v@, key@) == obj_get(fv, key@));
                        assert(pair.1@ == jview(fields@[i as int].1));
                    }
                    return Some(&pair.1);
                }
                proof {
                    assert(fv.skip(i as int)[0] == fv[i as int]);
                    assert(fv.skip(i as int).drop_first() =~= fv.skip(i + 1));
                }
                i += 1;
            }
            proof {
                assert(fv.skip(n as int) =~= Seq::<(Seq<char>, JsonView)>::empty());
            }
            None
        },
        _ => None,
    }
}

pub fn text_of<'a>(v: &'a JsonLite) -> (r: Option<&'a String>)
    ensures
        match r {
            Option::Some(s) => as_text(v@) == Some(s@),
            Option::None => as_text(v@) is None,
        },
{
    match v {
        JsonLite::Text(s) => Some(s),
        _ => None,
    }
}

/// The string field under `key`, when it is there and is a string.
pub fn text_field_of<'a>(v: &'a JsonLite, key: &str) -> (r: Option<&'a String>)
    ensures
        match r {
            Option::Some(s) => text_field_or_empty(v@, key@) == s@ && get_field(v@, key@)
                == Some(JsonView::Text(s@)),
            Option::None => forall|s: Seq<char>| get_field(v@, key@) != Some(JsonView::Text(s)),
        },
{
    match field_of(v, key) {
        Option::Some(x) => text_of(x),
        Option::None => None,
    }
}

/// What a log line parses to, if it parses: `serde_json`'s reading of
/// the characters, reduced to this library's JSON shape.
pub uninterp spec fn json_of(line: Seq<char>) -> Option<JsonView>;

#[verifier::external_type_specification]
#[verifier::external_body]
pub struct ExSerdeValue(serde_json::Value);

/// Relies on serde_json::Value and serde_json::Number::as_i64: each
/// variant is carried over one-for-one; booleans and numbers that do
/// not fit `i64` become `Other`.
#[verifier::external_body]
fn lite_of_value(v: serde_json::Value) -> JsonLite {
    match v {
        serde_json::Value::Null => JsonLite::Null,
        serde_json::Value::Bool(_) => JsonLite::Other,
        serde_json::Value::Number(n) => match n.as_i64() {
            Option::Some(i) => JsonLite::Int(i),
            Option::None => JsonLite::Other,
        },
        serde_json::Value::String(s) => JsonLite::Text(s),
        serde_json::Value::Array(a) => JsonLite::Array(a.into_iter().map(lite_of_value).collect()),
        serde_json::Value::Object(m) => JsonLite::Object(
            m.into_iter().map(|p| (p.0, lite_of_value(p.1))).collect(),
        ),
    }
}

/// Relies on serde_json::from_str: whether a line is a JSON document,
/// and which one, depends on the characters alone.
#[verifier::external_body]
pub fn parse_json_line(line: &str) -> (r: Option<JsonLite>)
    ensures
        match r {
            Option::Some(v) => json_of(line@) == Some(v@),
            Option::None => json_of(line@) is None,
        },
{
    match serde_json::from_str::<serde_json::Value>(line) {
        Ok(v) => Some(lite_of_value(v)),
        Err(_) => None,
    }
}

} // verus!
