//! JSON values as the library reads them: `serde_json` reads the text, and
//! the library walks the value it gives.
use vstd::prelude::*;
use crate::text::str_eq;
use serde_json::Value;

verus! {

/// A JSON value; a number keeps the text `serde_json` writes it as.
#[derive(Debug)]
pub enum Json {
    Null,
    Bool(bool),
    Number(String),
    Str(String),
    Arr(Vec<Json>),
    Obj(Vec<(String, Json)>),
}

/// A JSON value as plain values.
pub enum JsonValue {
    Null,
    Bool(bool),
    Number(Seq<char>),
    Str(Seq<char>),
    Arr(Seq<JsonValue>),
    Obj(Seq<(Seq<char>, JsonValue)>),
}

/// A JSON value as plain values.
pub open spec fn json_view(j: Json) -> JsonValue
    decreases j,
{
    match j {
        Json::Null => JsonValue::Null,
        Json::Bool(b) => JsonValue::Bool(b),
        Json::Number(n) => JsonValue::Number(n@),
        Json::Str(s) => JsonValue::Str(s@),
        Json::Arr(items) => JsonValue::Arr(items_view(items@)),
        Json::Obj(fields) => JsonValue::Obj(fields_view(fields@)),
    }
}

/// The elements of an array as plain values.
pub open spec fn items_view(items: Seq<Json>) -> Seq<JsonValue>
    decreases items,
{
    if items.len() == 0 {
        seq![]
    } else {
        items_view(items.drop_last()).push(json_view(items.last()))
    }
}

/// The members of an object as plain values.
pub open spec fn fields_view(fields: Seq<(String, Json)>) -> Seq<(Seq<char>, JsonValue)>
    decreases fields,
{
    if fields.len() == 0 {
        seq![]
    } else {
        fields_view(fields.drop_last()).push((fields.last().0@, json_view(fields.last().1)))
    }
}

/// The plain values of an array's elements are those of each element.
pub proof fn lemma_items_view(items: Seq<Json>)
    ensures
        items_view(items).len() == items.len(),
        forall|i: int| 0 <= i < items.len() ==> #[trigger] items_view(items)[i] == json_view(items[i]),
    decreases items.len(),
{
    if items.len() > 0 {
        lemma_items_view(items.drop_last());
        assert forall|i: int| 0 <= i < items.len() implies #[trigger] items_view(items)[i]
            == json_view(items[i]) by {
            if i < items.len() - 1 {
                assert(items.drop_last()[i] == items[i]);
            }
        }
    }
}

proof fn lemma_fields_view(fields: Seq<(String, Json)>)
    ensures
        fields_view(fields).len() == fields.len(),
        forall|i: int|
            0 <= i < fields.len() ==> #[trigger] fields_view(fields)[i] == (
                fields[i].0@,
                json_view(fields[i].1),
            ),
    decreases fields.len(),
{
    if fields.len() > 0 {
        lemma_fields_view(fields.drop_last());
        assert forall|i: int| 0 <= i < fields.len() implies #[trigger] fields_view(fields)[i] == (
            fields[i].0@,
            json_view(fields[i].1),
        ) by {
            if i < fields.len() - 1 {
                assert(fields.drop_last()[i] == fields[i]);
            }
        }
    }
}

/// The value of the first member named `key` among the members.
pub open spec fn field_in(fields: Seq<(Seq<char>, JsonValue)>, key: Seq<char>) -> Option<JsonValue>
    decreases fields.len(),
{
    if fields.len() == 0 {
        None
    } else if fields[0].0 == key {
        Some(fields[0].1)
    } else {
        field_in(fields.drop_first(), key)
    }
}

/// The member named `key` of an object; none for a value that is not an
/// object or has no such member.
pub open spec fn member(v: JsonValue, key: Seq<char>) -> Option<JsonValue> {
    match v {
        JsonValue::Obj(fields) => field_in(fields, key),
        _ => None,
    }
}

/// The first element of an array; none for a value that is not an array or
/// is empty.
pub open spec fn first_element(v: JsonValue) -> Option<JsonValue> {
    match v {
        JsonValue::Arr(items) => if items.len() > 0 {
            Some(items[0])
        } else {
            None
        },
        _ => None,
    }
}

/// The text of a member that is a string; none otherwise.
pub open spec fn text_member(v: JsonValue, key: Seq<char>) -> Option<Seq<char>> {
    match member(v, key) {
        Some(JsonValue::Str(s)) => Some(s),
        _ => None,
    }
}

/// The member named `key` of a value.
pub fn member_of<'a>(v: &'a Json, key: &str) -> (r: Option<&'a Json>)
    ensures
        match r {
            Some(x) => member(json_view(*v), key@) == Some(json_view(*x)),
            None => member(json_view(*v), key@) is None,
        },
{
    match v {
        Json::Obj(fields) => {
            let ghost fv = fields_view(fields@);
            proof {
                lemma_fields_view(fields@);
            }
            let mut k: usize = 0;
            assert(fv.subrange(0, fv.len() as int) =~= fv);
            while k < fields.len()
                invariant
                    k <= fields@.len(),
                    json_view(*v) == JsonValue::Obj(fv),
                    fv == fields_view(fields@),
                    fv.len() == fields@.len(),
                    forall|i: int|
                        0 <= i < fields@.len() ==> #[trigger] fv[i] == (
                            fields@[i].0@,
                            json_view(fields@[i].1),
                        ),
                    field_in(fv, key@) == field_in(fv.subrange(k as int, fv.len() as int), key@),
                decreases fields.len() - k,
            {
                let ghost rest = fv.subrange(k as int, fv.len() as int);
                assert(rest[0] == fv[k as int]);
                if str_eq(fields[k].0.as_str(), key) {
                    return Some(&fields[k].1);
                }
                assert(rest.drop_first() =~= fv.subrange(k + 1, fv.len() as int));
                k = k + 1;
            }
            assert(fv.subrange(k as int, fv.len() as int) =~= Seq::<(Seq<char>, JsonValue)>::empty());
            None
        },
        _ => None,
    }
}

/// The first element of a value.
pub fn first_element_of(v: &Json) -> (r: Option<&Json>)
    ensures
        match r {
            Some(x) => first_element(json_view(*v)) == Some(json_view(*x)),
            None => first_element(json_view(*v)) is None,
        },
{
    match v {
        Json::Arr(items) => {
            proof {
                lemma_items_view(items@);
            }
            if items.len() > 0 {
                Some(&items[0])
            } else {
                None
            }
        },
        _ => None,
    }
}

/// The elements of a value that is an array.
pub fn elements_of(v: &Json) -> (r: Option<&Vec<Json>>)
    ensures
        match r {
            Some(items) => json_view(*v) == JsonValue::Arr(items_view(items@)),
            None => !(json_view(*v) is Arr),
        },
{
    match v {
        Json::Arr(items) => Some(items),
        _ => None,
    }
}

/// The text of a member that is a string.
pub fn text_member_of(v: &Json, key: &str) -> (r: Option<String>)
    ensures
        match r {
            Some(t) => text_member(json_view(*v), key@) == Some(t@),
            None => text_member(json_view(*v), key@) is None,
        },
{
    match member_of(v, key) {
        Some(Json::Str(s)) => Some(s.clone()),
        _ => None,
    }
}

/// A copy of a value.
pub fn copy_json(j: &Json) -> (r: Json)
    ensures
        json_view(r) == json_view(*j),
    decreases j,
{
    match j {
        Json::Null => Json::Null,
        Json::Bool(b) => Json::Bool(*b),
        Json::Number(n) => Json::Number(n.clone()),
        Json::Str(s) => Json::Str(s.clone()),
        Json::Arr(items) => {
            let mut out: Vec<Json> = Vec::new();
            let mut k: usize = 0;
            assert(items@.take(0) =~= Seq::<Json>::empty());
            while k < items.len()
                invariant
                    k <= items@.len(),
                    *j == Json::Arr(*items),
                    items_view(out@) == items_view(items@.take(k as int)),
                decreases items.len() - k,
            {
                proof {
                    assert(decreases_to!(*j => (*j)->Arr_0));
                    assert(decreases_to!(*items => items@));
                    assert(decreases_to!(items@ => items@[k as int]));
                    assert(decreases_to!(*j => items@[k as int]));
                }
                let c = copy_json(&items[k]);
                let ghost before = out@;
                out.push(c);
                assert(out@.drop_last() =~= before);
                assert(items@.take(k + 1).drop_last() =~= items@.take(k as int));
                k = k + 1;
            }
            assert(items@.take(items@.len() as int) =~= items@);
            Json::Arr(out)
        },
        Json::Obj(fields) => {
            let mut out: Vec<(String, Json)> = Vec::new();
            let mut k: usize = 0;
            assert(fields@.take(0) =~= Seq::<(String, Json)>::empty());
            while k < fields.len()
                invariant
                    k <= fields@.len(),
                    *j == Json::Obj(*fields),
                    fields_view(out@) == fields_view(fields@.take(k as int)),
                decreases fields.len() - k,
            {
                proof {
                    assert(decreases_to!(*j => (*j)->Obj_0));
                    assert(decreases_to!(*fields => fields@));
                    assert(decreases_to!(fields@ => fields@[k as int]));
                    assert(decreases_to!(fields@[k as int] => fields@[k as int].1));
                    assert(decreases_to!(*j => fields@[k as int].1));
                }
                let c = copy_json(&fields[k].1);
                let ghost before = out@;
                out.push((fields[k].0.clone(), c));
                assert(out@.drop_last() =~= before);
                assert(fields@.take(k + 1).drop_last() =~= fields@.take(k as int));
                k = k + 1;
            }
            assert(fields@.take(fields@.len() as int) =~= fields@);
            Json::Obj(out)
        },
    }
}

/// What `serde_json` reads from a text, as plain values; none where the text
/// is not JSON.
pub uninterp spec fn json_of(text: Seq<char>) -> Option<JsonValue>;

/// `serde_json::from_str` into a `serde_json::Value`, converted variant by
/// variant: a number keeps its `serde_json` text, and each element or member
/// is converted by reading its `serde_json` text again. The contract claims
/// that the result is a function of the text, named `json_of`.
#[verifier::external_body]
pub(crate) fn parse_json(text: &str) -> (r: Option<Json>)
    ensures
        match r {
            Some(j) => json_of(text@) == Some(json_view(j)),
            None => json_of(text@) is None,
        },
{
    Some(match serde_json::from_str(text).ok()? {
        Value::Null => Json::Null,
        Value::Bool(b) => Json::Bool(b),
        Value::Number(n) => Json::Number(n.to_string()),
        Value::String(s) => Json::Str(s),
        Value::Array(a) => Json::Arr(
            a.iter().map(|x| parse_json(&x.to_string())).collect::<Option<_>>()?,
        ),
        Value::Object(o) => Json::Obj(
            o.iter().map(|(k, x)| Some((k.clone(), parse_json(&x.to_string())?))).collect::<
                Option<_>,
            >()?,
        ),
    })
}

} // verus!
