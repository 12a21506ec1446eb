use vstd::prelude::*;

use crate::item::{RawItem, SourceError};

verus! {

#[verifier::external_type_specification]
#[verifier::external_body]
pub struct ExJsonValue(json::JsonValue);

#[verifier::external_type_specification]
#[verifier::external_body]
pub struct ExJsonError(json::Error);

/// Whether json::parse accepts this text as JSON.
pub uninterp spec fn parse_ok_of(text: Seq<char>) -> bool;

/// The JSON value json::parse reads out of this text (meaningful only
/// where `parse_ok_of` holds).
pub uninterp spec fn parse_val_of(text: Seq<char>) -> json::JsonValue;

/// Whether the value is a JSON array.
pub uninterp spec fn is_array_of(v: json::JsonValue) -> bool;

/// Whether the value is a JSON object.
pub uninterp spec fn is_object_of(v: json::JsonValue) -> bool;

/// The element count of an array or object, zero for any other value.
pub uninterp spec fn len_of(v: json::JsonValue) -> usize;

/// The array's element at a position (the null value when out of bounds
/// or not an array).
pub uninterp spec fn member_of(v: json::JsonValue, i: int) -> json::JsonValue;

/// The object's field of a name (the null value when absent or not an
/// object).
pub uninterp spec fn field_of(v: json::JsonValue, key: Seq<char>) -> json::JsonValue;

/// Whether an object carries a field of this name.
pub uninterp spec fn has_key_of(v: json::JsonValue, key: Seq<char>) -> bool;

/// The value read as an unsigned 32-bit number, if it is a number in
/// range.
pub uninterp spec fn as_u32_of(v: json::JsonValue) -> Option<u32>;

/// The value's text, if it is a JSON string.
pub uninterp spec fn as_str_of(v: json::JsonValue) -> Option<Seq<char>>;

/// Relies on json::parse: whether the text parses, and the value read out
/// of it, depend on the text alone.
#[verifier::external_body]
fn json_parse(text: &str) -> (r: Result<json::JsonValue, json::Error>)
    ensures
        r is Ok <==> parse_ok_of(text@),
        r is Ok ==> r->Ok_0 == parse_val_of(text@),
{
    json::parse(text)
}

/// Relies on json::JsonValue::is_array, a function of the value alone.
#[verifier::external_body]
fn json_is_array(v: &json::JsonValue) -> (r: bool)
    ensures
        r == is_array_of(*v),
{
    v.is_array()
}

/// Relies on json::JsonValue::is_object, a function of the value alone.
#[verifier::external_body]
fn json_is_object(v: &json::JsonValue) -> (r: bool)
    ensures
        r == is_object_of(*v),
{
    v.is_object()
}

/// Relies on json::JsonValue::len, a function of the value alone.
#[verifier::external_body]
fn json_len(v: &json::JsonValue) -> (r: usize)
    ensures
        r == len_of(*v),
{
    v.len()
}

/// Relies on the json crate's indexing by position, a function of the
/// value and the position alone; it never panics, yielding the null value
/// out of bounds.
#[verifier::external_body]
fn json_member<'a>(v: &'a json::JsonValue, i: usize) -> (r: &'a json::JsonValue)
    ensures
        *r == member_of(*v, i as int),
{
    &v[i]
}

/// Relies on the json crate's indexing by key, a function of the value and
/// the key alone; it never panics, yielding the null value for an absent
/// key.
#[verifier::external_body]
fn json_field<'a>(v: &'a json::JsonValue, key: &str) -> (r: &'a json::JsonValue)
    ensures
        *r == field_of(*v, key@),
{
    &v[key]
}

/// Relies on json::JsonValue::has_key, a function of the value and the key
/// alone.
#[verifier::external_body]
fn json_has_key(v: &json::JsonValue, key: &str) -> (r: bool)
    ensures
        r == has_key_of(*v, key@),
{
    v.has_key(key)
}

/// Relies on json::JsonValue::as_u32, a function of the value alone.
#[verifier::external_body]
fn json_as_u32(v: &json::JsonValue) -> (r: Option<u32>)
    ensures
        r == as_u32_of(*v),
{
    v.as_u32()
}

/// Relies on json::JsonValue::as_str, a function of the value alone; the
/// text is copied into an owned String, one for one.
#[verifier::external_body]
fn json_as_string(v: &json::JsonValue) -> (r: Option<String>)
    ensures
        r is Some <==> as_str_of(*v) is Some,
        r is Some ==> r->0@ == as_str_of(*v)->0,
{
    match v.as_str() {
        Option::Some(s) => Option::Some(s.to_owned()),
        Option::None => Option::None,
    }
}

/// How many ids a decode of this payload keeps: the array's element
/// count, capped at `limit`.
pub open spec fn kept_ids(text: Seq<char>, limit: int) -> int {
    let n = len_of(parse_val_of(text)) as int;
    if n < limit {
        n
    } else {
        limit
    }
}

/// The payloads on which the id-list decode succeeds: the text parses,
/// the value is an array, and every kept element reads as a 32-bit id.
pub open spec fn spec_top_ids_ok(text: Seq<char>, limit: int) -> bool {
    &&& parse_ok_of(text)
    &&& is_array_of(parse_val_of(text))
    &&& (forall|i: int|
        0 <= i < kept_ids(text, limit) ==> as_u32_of(member_of(parse_val_of(text), i)) is Some)
}

/// Decode the item source's ranked id list: a JSON array of numbers, of
/// which exactly the first `limit` are kept — fewer only when the array
/// itself is shorter. Anything else is a parse failure.
pub fn parse_top_ids(text: &str, limit: usize) -> (r: Result<Vec<u32>, SourceError>)
    ensures
        r is Ok <==> spec_top_ids_ok(text@, limit as int),
        r is Ok ==> r->Ok_0@.len() == kept_ids(text@, limit as int),
        r is Ok ==> forall|i: int|
            0 <= i < r->Ok_0@.len() ==> r->Ok_0@[i] == as_u32_of(
                member_of(parse_val_of(text@), i),
            )->0,
        r is Err ==> r->Err_0 == SourceError::Parse,
{
    let parsed = json_parse(text);
    let v = match parsed {
        Result::Ok(v) => v,
        Result::Err(_) => {
            return Result::Err(SourceError::Parse);
        },
    };
    if !json_is_array(&v) {
        return Result::Err(SourceError::Parse);
    }
    let n = json_len(&v);
    let cap = if n < limit {
        n
    } else {
        limit
    };
    let mut ids: Vec<u32> = Vec::new();
    let mut i: usize = 0;
    while i < cap
        invariant
            v == parse_val_of(text@),
            parse_ok_of(text@),
            is_array_of(parse_val_of(text@)),
            n == len_of(parse_val_of(text@)),
            cap == kept_ids(text@, limit as int),
            i <= cap,
            ids@.len() == i,
            forall|k: int|
                0 <= k < i ==> (#[trigger] as_u32_of(member_of(parse_val_of(text@), k))) is Some,
            forall|k: int|
                0 <= k < i ==> ids@[k] == (#[trigger] as_u32_of(
                    member_of(parse_val_of(text@), k),
                ))->0,
        decreases cap - i,
    {
        match json_as_u32(json_member(&v, i)) {
            Option::Some(id) => ids.push(id),
            Option::None => {
                return Result::Err(SourceError::Parse);
            },
        }
        i = i + 1;
    }
    Result::Ok(ids)
}

/// The named field of an item payload's parsed object.
pub open spec fn item_field(text: Seq<char>, key: Seq<char>) -> json::JsonValue {
    field_of(parse_val_of(text), key)
}

/// The payloads on which the item decode succeeds: the text parses to an
/// object whose `id`, `title` and `score` fields read as a number, text
/// and a number, and whose `url` field, when present at all, reads as
/// text.
pub open spec fn spec_item_ok(text: Seq<char>) -> bool {
    &&& parse_ok_of(text)
    &&& is_object_of(parse_val_of(text))
    &&& as_u32_of(item_field(text, "id"@)) is Some
    &&& as_str_of(item_field(text, "title"@)) is Some
    &&& as_u32_of(item_field(text, "score"@)) is Some
    &&& (has_key_of(parse_val_of(text), "url"@) ==> as_str_of(item_field(text, "url"@)) is Some)
}

/// Build one raw item out of the fields read from an item payload: `id`,
/// `title` and `score` are required; `url` is required to be text exactly
/// when the payload carries the field at all. A missing requirement is a
/// parse failure; nothing else is.
pub fn assemble_item(
    id: Option<u32>,
    title: Option<String>,
    has_url: bool,
    url: Option<String>,
    score: Option<u32>,
) -> (r: Result<RawItem, SourceError>)
    ensures
        r is Ok <==> (id is Some && title is Some && score is Some && (has_url ==> url is Some)),
        r is Ok ==> {
            &&& r->Ok_0.id == id->0
            &&& r->Ok_0.title == title->0
            &&& r->Ok_0.score == score->0
            &&& r->Ok_0.url == (if has_url {
                url
            } else {
                Option::<String>::None
            })
        },
        r is Err ==> r->Err_0 == SourceError::Parse,
{
    let id_v = match id {
        Option::Some(v) => v,
        Option::None => {
            return Result::Err(SourceError::Parse);
        },
    };
    let title_v = match title {
        Option::Some(v) => v,
        Option::None => {
            return Result::Err(SourceError::Parse);
        },
    };
    let score_v = match score {
        Option::Some(v) => v,
        Option::None => {
            return Result::Err(SourceError::Parse);
        },
    };
    let url_v = if has_url {
        match url {
            Option::Some(u) => Option::Some(u),
            Option::None => {
                return Result::Err(SourceError::Parse);
            },
        }
    } else {
        Option::None
    };
    Result::Ok(RawItem { id: id_v, title: title_v, url: url_v, score: score_v })
}

/// Decode one item payload: a JSON object whose `id`, `title` and `score`
/// fields are required, and whose `url` field, when present, must be text.
/// The decision over the fields once read is `assemble_item`'s.
pub fn parse_item_details(text: &str) -> (r: Result<RawItem, SourceError>)
    ensures
        r is Ok <==> spec_item_ok(text@),
        r is Ok ==> {
            &&& r->Ok_0.id == as_u32_of(item_field(text@, "id"@))->0
            &&& r->Ok_0.title@ == as_str_of(item_field(text@, "title"@))->0
            &&& r->Ok_0.score == as_u32_of(item_field(text@, "score"@))->0
            &&& (has_key_of(parse_val_of(text@), "url"@) ==> r->Ok_0.url is Some
                && r->Ok_0.url->0@ == as_str_of(item_field(text@, "url"@))->0)
            &&& (!has_key_of(parse_val_of(text@), "url"@) ==> r->Ok_0.url is None)
        },
        r is Err ==> r->Err_0 == SourceError::Parse,
{
    let parsed = json_parse(text);
    let v = match parsed {
        Result::Ok(v) => v,
        Result::Err(_) => {
            return Result::Err(SourceError::Parse);
        },
    };
    if !json_is_object(&v) {
        return Result::Err(SourceError::Parse);
    }
    let id = json_as_u32(json_field(&v, "id"));
    let title = json_as_string(json_field(&v, "title"));
    let has_url = json_has_key(&v, "url");
    let url = json_as_string(json_field(&v, "url"));
    let score = json_as_u32(json_field(&v, "score"));
    assemble_item(id, title, has_url, url, score)
}

} // verus!
