use vstd::prelude::*;
use vstd::string::StringExecFns;

use crate::text::str_eq;
use serde_json::Value;

verus! {

/// A JSON number as `serde_json` keeps it: a non-negative integer, a negative
/// integer, or a float (kept as its bits).
#[derive(Debug, Clone, Copy, PartialEq, Eq)]
pub enum Number {
    PosInt(u64),
    NegInt(i64),
    Float(u64),
}

/// A JSON value.
#[derive(Debug)]
pub enum Json {
    Null,
    Bool(bool),
    Number(Number),
    Str(String),
    Array(Vec<Json>),
    Object(Vec<(String, Json)>),
}

/// What a JSON value holds, as plain values.
pub enum JsonView {
    Null,
    Bool(bool),
    Number(Number),
    Str(Seq<char>),
    Array(Seq<JsonView>),
    Object(Seq<(Seq<char>, JsonView)>),
}

/// What a JSON value holds, as plain values.
pub open spec fn json_view(j: Json) -> JsonView
    decreases j,
{
    match j {
        Json::Null => JsonView::Null,
        Json::Bool(b) => JsonView::Bool(b),
        Json::Number(n) => JsonView::Number(n),
        Json::Str(s) => JsonView::Str(s@),
        Json::Array(v) => JsonView::Array(
            Seq::new(
                v@.len(),
                |i: int|
                    if 0 <= i < v@.len() {
                        json_view(v@[i])
                    } else {
                        JsonView::Null
                    },
            ),
        ),
        Json::Object(v) => JsonView::Object(
            Seq::new(
                v@.len(),
                |i: int|
                    if 0 <= i < v@.len() {
                        (v@[i].0@, json_view(v@[i].1))
                    } else {
                        (Seq::empty(), JsonView::Null)
                    },
            ),
        ),
    }
}

impl View for Json {
    type V = JsonView;

    open spec fn view(&self) -> JsonView {
        json_view(*self)
    }
}

/// The plain values of the fields of an object.
pub open spec fn fields_view(v: Seq<(String, Json)>) -> Seq<(Seq<char>, JsonView)> {
    Seq::new(v.len(), |i: int| (v[i].0@, v[i].1@))
}

/// The plain values of the items of an array.
pub open spec fn items_view(v: Seq<Json>) -> Seq<JsonView> {
    Seq::new(v.len(), |i: int| v[i]@)
}

/// The view of an object is the view of its fields.
pub proof fn lemma_object_view(v: &Json, fields: Vec<(String, Json)>)
    requires
        *v == Json::Object(fields),
    ensures
        v@ == JsonView::Object(fields_view(fields@)),
{
    match v@ {
        JsonView::Object(f) => {
            assert(f =~= fields_view(fields@));
        },
        _ => {},
    }
}

/// The view of an array is the view of its items.
pub proof fn lemma_array_view(v: &Json, items: Vec<Json>)
    requires
        *v == Json::Array(items),
    ensures
        v@ == JsonView::Array(items_view(items@)),
{
    match v@ {
        JsonView::Array(f) => {
            assert(f =~= items_view(items@));
        },
        _ => {},
    }
}

/// The value of the first field named `key`.
pub open spec fn lookup(fields: Seq<(Seq<char>, JsonView)>, key: Seq<char>) -> Option<JsonView>
    decreases fields.len(),
{
    if fields.len() == 0 {
        None
    } else if fields[0].0 == key {
        Some(fields[0].1)
    } else {
        lookup(fields.drop_first(), key)
    }
}

/// Why a JSON value could not be read as what was expected; the text says why.
#[derive(Debug)]
pub struct JsonError(pub String);

/// The text "key `k` not found".
pub open spec fn missing_key(k: Seq<char>) -> Seq<char> {
    "key `"@ + k + "` not found"@
}

/// The text "key `k` has the wrong type".
pub open spec fn wrong_type(k: Seq<char>) -> Seq<char> {
    "key `"@ + k + "` has the wrong type"@
}

/// An error with the text `"key `k` not found"`.
pub fn missing_key_error(k: &str) -> (r: JsonError)
    ensures
        r.0@ == missing_key(k@),
{
    let mut s = String::from_str("key `");
    s.append(k);
    s.append("` not found");
    JsonError(s)
}

/// An error with the text `"key `k` has the wrong type"`.
pub fn wrong_type_error(k: &str) -> (r: JsonError)
    ensures
        r.0@ == wrong_type(k@),
{
    let mut s = String::from_str("key `");
    s.append(k);
    s.append("` has the wrong type");
    JsonError(s)
}

/// The value of the first field named `key`.
pub fn get<'a>(fields: &'a Vec<(String, Json)>, key: &str) -> (r: Option<&'a Json>)
    ensures
        match r {
            Some(v) => lookup(fields_view(fields@), key@) == Some(v@),
            None => lookup(fields_view(fields@), key@) is None,
        },
{
    let n = fields.len();
    let ghost all = fields_view(fields@);
    assert(all.skip(0) =~= all);
    for i in 0..n
        invariant
            n == fields@.len(),
            all == fields_view(fields@),
            lookup(all.skip(i as int), key@) == lookup(all, key@),
    {
        assert(all.skip(i as int)[0] == (fields@[i as int].0@, fields@[i as int].1@));
        if str_eq(fields[i].0.as_str(), key) {
            return Some(&fields[i].1);
        }
        assert(all.skip(i as int).drop_first() =~= all.skip(i + 1));
    }
    assert(all.skip(n as int).len() == 0);
    None
}


/// A copy of a JSON value.
#[verifier::loop_isolation(false)]
pub fn json_clone(v: &Json) -> (r: Json)
    ensures
        r@ == v@,
    decreases v,
{
    match v {
        Json::Null => Json::Null,
        Json::Bool(b) => Json::Bool(*b),
        Json::Number(n) => Json::Number(*n),
        Json::Str(s) => Json::Str(s.clone()),
        Json::Array(items) => {
            proof {
                lemma_array_view(v, *items);
            }
            let mut out: Vec<Json> = Vec::new();
            let mut i: usize = 0;
            while i < items.len()
                invariant
                    i <= items@.len(),
                    items_view(out@) == items_view(items@).take(i as int),
                decreases items@.len() - i,
            {
                proof {
                    assert(decreases_to!(v => items));
                    assert(decreases_to!(items => items@[i as int]));
                }
                let c = json_clone(&items[i]);
                let ghost before = out@;
                out.push(c);
                assert(items_view(out@) =~= items_view(items@).take(i as int + 1)) by {
                    assert(items_view(before) =~= items_view(items@).take(i as int));
                }
                i = i + 1;
            }
            assert(items_view(items@).take(items@.len() as int) =~= items_view(items@));
            let r = Json::Array(out);
            proof {
                lemma_array_view(&r, out);
            }
            r
        },
        Json::Object(fields) => {
            proof {
                lemma_object_view(v, *fields);
            }
            let mut out: Vec<(String, Json)> = Vec::new();
            let mut i: usize = 0;
            while i < fields.len()
                invariant
                    i <= fields@.len(),
                    fields_view(out@) == fields_view(fields@).take(i as int),
                decreases fields@.len() - i,
            {
                proof {
                    assert(decreases_to!(v => fields));
                    assert(decreases_to!(fields => fields@[i as int]));
                    assert(decreases_to!(fields@[i as int] => fields@[i as int].1));
                }
                let c = json_clone(&fields[i].1);
                let k = fields[i].0.clone();
                let ghost before = out@;
                out.push((k, c));
                assert(fields_view(out@) =~= fields_view(fields@).take(i as int + 1)) by {
                    assert(fields_view(before) =~= fields_view(fields@).take(i as int));
                }
                i = i + 1;
            }
            assert(fields_view(fields@).take(fields@.len() as int) =~= fields_view(fields@));
            let r = Json::Object(out);
            proof {
                lemma_object_view(&r, out);
            }
            r
        },
    }
}

/// Whether two JSON values hold the same: the same type and the same contents, the
/// fields of objects in the same order.
#[verifier::loop_isolation(false)]
pub fn json_eq(a: &Json, b: &Json) -> (r: bool)
    ensures
        r == (a@ == b@),
    decreases a,
{
    match (a, b) {
        (Json::Null, Json::Null) => true,
        (Json::Bool(x), Json::Bool(y)) => *x == *y,
        (Json::Number(x), Json::Number(y)) => {
            match (x, y) {
                (Number::PosInt(p), Number::PosInt(q)) => *p == *q,
                (Number::NegInt(p), Number::NegInt(q)) => *p == *q,
                (Number::Float(p), Number::Float(q)) => *p == *q,
                _ => false,
            }
        },
        (Json::Str(x), Json::Str(y)) => str_eq(x.as_str(), y.as_str()),
        (Json::Array(x), Json::Array(y)) => {
            proof {
                lemma_array_view(a, *x);
                lemma_array_view(b, *y);
            }
            if x.len() != y.len() {
                assert(items_view(x@).len() != items_view(y@).len());
                return false;
            }
            let mut i: usize = 0;
            while i < x.len()
                invariant
                    i <= x@.len(),
                    x@.len() == y@.len(),
                    forall|j: int| 0 <= j < i ==> x@[j]@ == y@[j]@,
                decreases x@.len() - i,
            {
                proof {
                    assert(decreases_to!(a => x));
                    assert(decreases_to!(x => x@[i as int]));
                }
                if !json_eq(&x[i], &y[i]) {
                    assert(items_view(x@)[i as int] != items_view(y@)[i as int]);
                    return false;
                }
                i = i + 1;
            }
            assert(items_view(x@) =~= items_view(y@));
            true
        },
        (Json::Object(x), Json::Object(y)) => {
            proof {
                lemma_object_view(a, *x);
                lemma_object_view(b, *y);
            }
            if x.len() != y.len() {
                assert(fields_view(x@).len() != fields_view(y@).len());
                return false;
            }
            let mut i: usize = 0;
            while i < x.len()
                invariant
                    i <= x@.len(),
                    x@.len() == y@.len(),
                    forall|j: int| 0 <= j < i ==> x@[j].0@ == y@[j].0@ && x@[j].1@ == y@[j].1@,
                decreases x@.len() - i,
            {
                proof {
                    assert(decreases_to!(a => x));
                    assert(decreases_to!(x => x@[i as int]));
                    assert(decreases_to!(x@[i as int] => x@[i as int].1));
                }
                if !str_eq(x[i].0.as_str(), y[i].0.as_str()) {
                    assert(fields_view(x@)[i as int] != fields_view(y@)[i as int]);
                    return false;
                }
                if !json_eq(&x[i].1, &y[i].1) {
                    assert(fields_view(x@)[i as int] != fields_view(y@)[i as int]);
                    return false;
                }
                i = i + 1;
            }
            assert(fields_view(x@) =~= fields_view(y@));
            true
        },
        _ => false,
    }
}

/// The text of a JSON string.
pub open spec fn str_of(v: JsonView) -> Option<Seq<char>> {
    match v {
        JsonView::Str(s) => Some(s),
        _ => None,
    }
}

/// The integer that a JSON number holds, if it is one.
pub open spec fn int_of(v: JsonView) -> Option<int> {
    match v {
        JsonView::Number(Number::PosInt(n)) => Some(n as int),
        JsonView::Number(Number::NegInt(n)) => Some(n as int),
        _ => None,
    }
}

/// The integer that a JSON value holds, if it is one.
pub fn int_value(v: &Json) -> (r: Option<i128>)
    ensures
        match int_of(v@) {
            Some(n) => r == Some(n as i128),
            None => r is None,
        },
{
    match v {
        Json::Number(Number::PosInt(n)) => {
            assert(v@ == JsonView::Number(Number::PosInt(*n)));
            Some(*n as i128)
        },
        Json::Number(Number::NegInt(n)) => {
            assert(v@ == JsonView::Number(Number::NegInt(*n)));
            Some(*n as i128)
        },
        _ => {
            assert(int_of(v@) is None);
            None
        },
    }
}

/// A required string field: missing is an error, and so is any other type.
pub open spec fn string_field(fields: Seq<(Seq<char>, JsonView)>, key: Seq<char>) -> Result<
    Seq<char>,
    Seq<char>,
> {
    match lookup(fields, key) {
        None => Err(missing_key(key)),
        Some(v) => match str_of(v) {
            Some(s) => Ok(s),
            None => Err(wrong_type(key)),
        },
    }
}

/// A required integer field in `[lo, hi]`: missing is an error, and so is anything
/// that is not an integer in range.
pub open spec fn int_field(
    fields: Seq<(Seq<char>, JsonView)>,
    key: Seq<char>,
    lo: int,
    hi: int,
) -> Result<int, Seq<char>> {
    match lookup(fields, key) {
        None => Err(missing_key(key)),
        Some(v) => match int_of(v) {
            Some(n) => if lo <= n <= hi {
                Ok(n)
            } else {
                Err(wrong_type(key))
            },
            None => Err(wrong_type(key)),
        },
    }
}

/// A required string field.
pub fn string_field_of(fields: &Vec<(String, Json)>, key: &str) -> (r: Result<String, JsonError>)
    ensures
        match string_field(fields_view(fields@), key@) {
            Ok(s) => r matches Ok(t) && t@ == s,
            Err(m) => r matches Err(e) && e.0@ == m,
        },
{
    match get(fields, key) {
        None => Err(missing_key_error(key)),
        Some(Json::Str(s)) => Ok(s.clone()),
        Some(_) => Err(wrong_type_error(key)),
    }
}

/// A required integer field in `[lo, hi]`.
pub fn int_field_of(fields: &Vec<(String, Json)>, key: &str, lo: i64, hi: u64) -> (r: Result<
    i128,
    JsonError,
>)
    ensures
        match int_field(fields_view(fields@), key@, lo as int, hi as int) {
            Ok(n) => r matches Ok(m) && m == n,
            Err(msg) => r matches Err(e) && e.0@ == msg,
        },
{
    match get(fields, key) {
        None => Err(missing_key_error(key)),
        Some(v) => match int_value(v) {
            Some(n) => {
                if lo as i128 <= n && n <= hi as i128 {
                    Ok(n)
                } else {
                    Err(wrong_type_error(key))
                }
            },
            None => Err(wrong_type_error(key)),
        },
    }
}

/// The texts of a list of JSON strings, or `None` when one item is not a string.
pub open spec fn string_list(items: Seq<JsonView>) -> Option<Seq<Seq<char>>>
    decreases items.len(),
{
    if items.len() == 0 {
        Some(Seq::empty())
    } else {
        match (string_list(items.drop_last()), str_of(items.last())) {
            (Some(l), Some(s)) => Some(l.push(s)),
            _ => None,
        }
    }
}

/// The numbers of a list of JSON integers that fit in 32 bits without sign, or `None`.
pub open spec fn u32_list(items: Seq<JsonView>) -> Option<Seq<u32>>
    decreases items.len(),
{
    if items.len() == 0 {
        Some(Seq::empty())
    } else {
        match (u32_list(items.drop_last()), int_of(items.last())) {
            (Some(l), Some(n)) => if 0 <= n <= u32::MAX {
                Some(l.push(n as u32))
            } else {
                None
            },
            _ => None,
        }
    }
}

/// A list field. A missing key is an error: "not found" when `required`, a wrong type
/// otherwise (the key then reads as `null`).
pub open spec fn list_field(fields: Seq<(Seq<char>, JsonView)>, key: Seq<char>, required: bool) -> Result<
    Seq<JsonView>,
    Seq<char>,
> {
    match lookup(fields, key) {
        None => if required {
            Err(missing_key(key))
        } else {
            Err(wrong_type(key))
        },
        Some(JsonView::Array(items)) => Ok(items),
        Some(_) => Err(wrong_type(key)),
    }
}

/// A list-of-strings field.
pub open spec fn strings_field(fields: Seq<(Seq<char>, JsonView)>, key: Seq<char>, required: bool) -> Result<
    Seq<Seq<char>>,
    Seq<char>,
> {
    match list_field(fields, key, required) {
        Ok(items) => match string_list(items) {
            Some(l) => Ok(l),
            None => Err(wrong_type(key)),
        },
        Err(m) => Err(m),
    }
}

/// A required list-of-ids field.
pub open spec fn ids_field(fields: Seq<(Seq<char>, JsonView)>, key: Seq<char>) -> Result<
    Seq<u32>,
    Seq<char>,
> {
    match list_field(fields, key, true) {
        Ok(items) => match u32_list(items) {
            Some(l) => Ok(l),
            None => Err(wrong_type(key)),
        },
        Err(m) => Err(m),
    }
}

/// An optional index field: missing is `None`, present must be a non-negative integer
/// that fits in `usize`.
pub open spec fn opt_index_field(fields: Seq<(Seq<char>, JsonView)>, key: Seq<char>) -> Result<
    Option<usize>,
    Seq<char>,
> {
    match lookup(fields, key) {
        None => Ok(None),
        Some(v) => match int_of(v) {
            Some(n) => if 0 <= n <= usize::MAX {
                Ok(Some(n as usize))
            } else {
                Err(wrong_type(key))
            },
            None => Err(wrong_type(key)),
        },
    }
}

/// An optional range field: missing is `None`, present must be a list of exactly two
/// indices.
pub open spec fn opt_range_field(fields: Seq<(Seq<char>, JsonView)>, key: Seq<char>) -> Result<
    Option<(usize, usize)>,
    Seq<char>,
> {
    match lookup(fields, key) {
        None => Ok(None),
        Some(JsonView::Array(items)) => if items.len() == 2 {
            match (int_of(items[0]), int_of(items[1])) {
                (Some(a), Some(b)) => if 0 <= a <= usize::MAX && 0 <= b <= usize::MAX {
                    Ok(Some((a as usize, b as usize)))
                } else {
                    Err(wrong_type(key))
                },
                _ => Err(wrong_type(key)),
            }
        } else {
            Err(wrong_type(key))
        },
        Some(_) => Err(wrong_type(key)),
    }
}

/// The views of a list of strings.
pub open spec fn string_views(v: Seq<String>) -> Seq<Seq<char>> {
    v.map_values(|s: String| s@)
}

/// A list field.
pub fn list_field_of<'a>(fields: &'a Vec<(String, Json)>, key: &str, required: bool) -> (r: Result<
    &'a Vec<Json>,
    JsonError,
>)
    ensures
        match list_field(fields_view(fields@), key@, required) {
            Ok(items) => r matches Ok(v) && items_view(v@) == items,
            Err(m) => r matches Err(e) && e.0@ == m,
        },
{
    match get(fields, key) {
        None => if required {
            Err(missing_key_error(key))
        } else {
            Err(wrong_type_error(key))
        },
        Some(v) => match v {
            Json::Array(items) => {
                proof {
                    lemma_array_view(v, *items);
                }
                Ok(items)
            },
            _ => Err(wrong_type_error(key)),
        },
    }
}

/// A list-of-strings field.
pub fn strings_field_of(fields: &Vec<(String, Json)>, key: &str, required: bool) -> (r: Result<
    Vec<String>,
    JsonError,
>)
    ensures
        match strings_field(fields_view(fields@), key@, required) {
            Ok(l) => r matches Ok(v) && string_views(v@) == l,
            Err(m) => r matches Err(e) && e.0@ == m,
        },
{
    let items = list_field_of(fields, key, required)?;
    let ghost iv = items_view(items@);
    let mut out: Vec<String> = Vec::new();
    let n = items.len();
    for i in 0..n
        invariant
            n == items@.len(),
            iv == items_view(items@),
            list_field(fields_view(fields@), key@, required) == Ok::<Seq<JsonView>, Seq<char>>(iv),
            string_list(iv.take(i as int)) == Some(string_views(out@)),
    {
        assert(iv.take(i + 1).drop_last() =~= iv.take(i as int));
        assert(iv.take(i + 1).last() == items@[i as int]@);
        match &items[i] {
            Json::Str(s) => {
                let ghost o0 = string_views(out@);
                out.push(s.clone());
                assert(string_views(out@) =~= o0.push(s@));
            },
            _ => {
                proof {
                    lemma_string_list_prefix(iv, i as int + 1);
                }
                return Err(wrong_type_error(key));
            },
        }
    }
    assert(iv.take(n as int) =~= iv);
    Ok(out)
}

proof fn lemma_string_list_prefix(items: Seq<JsonView>, i: int)
    requires
        0 <= i <= items.len(),
        string_list(items.take(i)) is None,
    ensures
        string_list(items) is None,
    decreases items.len() - i,
{
    if i < items.len() {
        assert(items.take(i + 1).drop_last() =~= items.take(i));
        lemma_string_list_prefix(items, i + 1);
    } else {
        assert(items.take(i) =~= items);
    }
}

proof fn lemma_u32_list_prefix(items: Seq<JsonView>, i: int)
    requires
        0 <= i <= items.len(),
        u32_list(items.take(i)) is None,
    ensures
        u32_list(items) is None,
    decreases items.len() - i,
{
    if i < items.len() {
        assert(items.take(i + 1).drop_last() =~= items.take(i));
        lemma_u32_list_prefix(items, i + 1);
    } else {
        assert(items.take(i) =~= items);
    }
}

/// A required list-of-ids field.
pub fn ids_field_of(fields: &Vec<(String, Json)>, key: &str) -> (r: Result<Vec<u32>, JsonError>)
    ensures
        match ids_field(fields_view(fields@), key@) {
            Ok(l) => r matches Ok(v) && v@ == l,
            Err(m) => r matches Err(e) && e.0@ == m,
        },
{
    let items = list_field_of(fields, key, true)?;
    let ghost iv = items_view(items@);
    let mut out: Vec<u32> = Vec::new();
    let n = items.len();
    for i in 0..n
        invariant
            n == items@.len(),
            iv == items_view(items@),
            list_field(fields_view(fields@), key@, true) == Ok::<Seq<JsonView>, Seq<char>>(iv),
            u32_list(iv.take(i as int)) == Some(out@),
    {
        assert(iv.take(i + 1).drop_last() =~= iv.take(i as int));
        assert(iv.take(i + 1).last() == items@[i as int]@);
        match int_value(&items[i]) {
            Some(k) => {
                if 0 <= k && k <= 4294967295 {
                    out.push(k as u32);
                    assert(out@ =~= u32_list(iv.take(i as int)).unwrap().push(k as u32));
                } else {
                    proof {
                        lemma_u32_list_prefix(iv, i as int + 1);
                    }
                    return Err(wrong_type_error(key));
                }
            },
            None => {
                proof {
                    lemma_u32_list_prefix(iv, i as int + 1);
                }
                return Err(wrong_type_error(key));
            },
        }
    }
    assert(iv.take(n as int) =~= iv);
    Ok(out)
}

/// An optional index field.
pub fn opt_index_field_of(fields: &Vec<(String, Json)>, key: &str) -> (r: Result<
    Option<usize>,
    JsonError,
>)
    ensures
        match opt_index_field(fields_view(fields@), key@) {
            Ok(o) => r matches Ok(p) && p == o,
            Err(m) => r matches Err(e) && e.0@ == m,
        },
{
    match get(fields, key) {
        None => Ok(None),
        Some(v) => match int_value(v) {
            Some(n) => {
                if 0 <= n && n <= usize::MAX as i128 {
                    Ok(Some(n as usize))
                } else {
                    Err(wrong_type_error(key))
                }
            },
            None => Err(wrong_type_error(key)),
        },
    }
}

/// An optional range field.
pub fn opt_range_field_of(fields: &Vec<(String, Json)>, key: &str) -> (r: Result<
    Option<(usize, usize)>,
    JsonError,
>)
    ensures
        match opt_range_field(fields_view(fields@), key@) {
            Ok(o) => r matches Ok(p) && p == o,
            Err(m) => r matches Err(e) && e.0@ == m,
        },
{
    match get(fields, key) {
        None => Ok(None),
        Some(v) => match v {
            Json::Array(items) => {
                proof {
                    lemma_array_view(v, *items);
                }
                if items.len() != 2 {
                    return Err(wrong_type_error(key));
                }
                assert(items_view(items@)[0] == items@[0]@);
                assert(items_view(items@)[1] == items@[1]@);
                match (int_value(&items[0]), int_value(&items[1])) {
                    (Some(a), Some(b)) => {
                        if 0 <= a && a <= usize::MAX as i128 && 0 <= b && b <= usize::MAX as i128 {
                            Ok(Some((a as usize, b as usize)))
                        } else {
                            Err(wrong_type_error(key))
                        }
                    },
                    _ => Err(wrong_type_error(key)),
                }
            },
            _ => Err(wrong_type_error(key)),
        },
    }
}

#[verifier::external_type_specification]
#[verifier::external_body]
pub struct ExJsonValue(Value);

/// What `serde_json` reads from `text`: the value, as plain values, or the text of
/// its error.
pub uninterp spec fn json_of_text(text: Seq<char>) -> Result<JsonView, Seq<char>>;

/// A value read by `serde_json`, variant by variant.
#[verifier::external_body]
fn json_from_value(v: Value) -> Json {
    match v {
        Value::Null => Json::Null,
        Value::Bool(b) => Json::Bool(b),
        Value::Number(n) => Json::Number(match (n.as_u64(), n.as_i64()) {
            (Some(u), _) => Number::PosInt(u),
            (None, Some(i)) => Number::NegInt(i),
            _ => Number::Float(n.as_f64().map(|x| x.to_bits()).unwrap_or(0)),
        }),
        Value::String(s) => Json::Str(s),
        Value::Array(a) => Json::Array(a.into_iter().map(json_from_value).collect()),
        Value::Object(f) => Json::Object(f.into_iter().map(|(k, x)| (k, json_from_value(x))).collect()),
    }
}

/// Reads `text` as one JSON value.
///
/// Trusted: calls `serde_json::from_str` for a `serde_json::Value`, whose answer (the
/// value or the error) depends on the text alone, and hands the value over variant
/// by variant; the result is named `json_of_text`.
#[verifier::external_body]
pub(crate) fn parse_json(text: &str) -> (r: Result<Json, String>)
    ensures
        match r {
            Ok(j) => json_of_text(text@) == Ok::<JsonView, Seq<char>>(j@),
            Err(e) => json_of_text(text@) == Err::<JsonView, Seq<char>>(e@),
        },
{
    serde_json::from_str::<Value>(text).map(json_from_value).map_err(|e| e.to_string())
}

} // verus!
