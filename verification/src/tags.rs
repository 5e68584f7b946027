use vstd::prelude::*;
use crate::text::{join, join_seqs, views};

verus! {

#[verifier::external_type_specification]
#[verifier::external_body]
pub struct ExJsonValue(serde_json::Value);

#[verifier::external_type_specification]
#[verifier::external_body]
#[verifier::reject_recursive_types(K)]
#[verifier::reject_recursive_types(V)]
pub struct ExJsonMap<K, V>(serde_json::Map<K, V>);

/// A JSON value as this library reads it. Numbers are not read, so they are
/// held without their value.
pub enum JsonModel {
    Null,
    Bool(bool),
    Number,
    Str(Seq<char>),
    Array(Seq<JsonModel>),
    Object(Map<Seq<char>, JsonModel>),
}

/// What a `serde_json::Value` holds.
pub uninterp spec fn json_model(v: serde_json::Value) -> JsonModel;

/// What a `serde_json::Map` holds: its keys and the values under them.
pub uninterp spec fn json_object_model(m: serde_json::Map<String, serde_json::Value>) -> Map<
    Seq<char>,
    JsonModel,
>;

/// What `serde_json::from_str::<serde_json::Value>` makes of a text (`None`
/// where it returns an error).
pub uninterp spec fn json_parse(text: Seq<char>) -> Option<JsonModel>;

pub open spec fn array_items(m: JsonModel) -> Option<Seq<JsonModel>> {
    match m {
        JsonModel::Array(items) => Some(items),
        _ => None,
    }
}

pub open spec fn object_fields(m: JsonModel) -> Option<Map<Seq<char>, JsonModel>> {
    match m {
        JsonModel::Object(fields) => Some(fields),
        _ => None,
    }
}

pub open spec fn string_text(m: JsonModel) -> Option<Seq<char>> {
    match m {
        JsonModel::Str(s) => Some(s),
        _ => None,
    }
}

pub open spec fn models(vs: Seq<serde_json::Value>) -> Seq<JsonModel> {
    vs.map_values(|v: serde_json::Value| json_model(v))
}

pub open spec fn opt_value_model(o: Option<serde_json::Value>) -> Option<JsonModel> {
    match o {
        Some(v) => Some(json_model(v)),
        None => None,
    }
}

pub open spec fn opt_items_model(o: Option<&Vec<serde_json::Value>>) -> Option<Seq<JsonModel>> {
    match o {
        Some(a) => Some(models(a@)),
        None => None,
    }
}

pub open spec fn opt_fields_model(o: Option<&serde_json::Map<String, serde_json::Value>>) -> Option<
    Map<Seq<char>, JsonModel>,
> {
    match o {
        Some(m) => Some(json_object_model(*m)),
        None => None,
    }
}

pub open spec fn opt_ref_model(o: Option<&serde_json::Value>) -> Option<JsonModel> {
    match o {
        Some(v) => Some(json_model(*v)),
        None => None,
    }
}

pub open spec fn opt_str_view(o: Option<&str>) -> Option<Seq<char>> {
    match o {
        Some(s) => Some(s@),
        None => None,
    }
}

/// The value under `key` in the fields, if there is one.
pub open spec fn field(fields: Map<Seq<char>, JsonModel>, key: Seq<char>) -> Option<JsonModel> {
    if fields.contains_key(key) {
        Some(fields[key])
    } else {
        None
    }
}

/// `serde_json::from_str::<serde_json::Value>`, named `json_parse`.
#[verifier::external_body]
fn parse_json(text: &str) -> (r: Option<serde_json::Value>)
    ensures
        opt_value_model(r) == json_parse(text@),
{
    serde_json::from_str::<serde_json::Value>(text).ok()
}

/// `serde_json::Value::as_array`: the items where the value is an array.
#[verifier::external_body]
fn value_as_array(v: &serde_json::Value) -> (r: Option<&Vec<serde_json::Value>>)
    ensures
        opt_items_model(r) == array_items(json_model(*v)),
{
    v.as_array()
}

/// `serde_json::Value::as_object`: the fields where the value is an object.
#[verifier::external_body]
fn value_as_object(v: &serde_json::Value) -> (r: Option<&serde_json::Map<String, serde_json::Value>>)
    ensures
        opt_fields_model(r) == object_fields(json_model(*v)),
{
    v.as_object()
}

/// `serde_json::Map::get`: the value under the key, if there is one.
#[verifier::external_body]
fn object_get<'a>(m: &'a serde_json::Map<String, serde_json::Value>, key: &str) -> (r: Option<
    &'a serde_json::Value,
>)
    ensures
        opt_ref_model(r) == field(json_object_model(*m), key@),
{
    m.get(key)
}

/// `serde_json::Value::as_str`: the text where the value is a string.
#[verifier::external_body]
fn value_as_str(v: &serde_json::Value) -> (r: Option<&str>)
    ensures
        opt_str_view(r) == string_text(json_model(*v)),
{
    v.as_str()
}

/// Why the tags of a project could not be had.
pub enum GetTagsError {
    ExpectedJsonArrayError(),
    ExpectedJsonName(),
    ExpectedJsonObjectError(),
    FromUtf8Error(String),
    HyperError(String),
    HyperHttpError(String),
    HyperHttpStatusError(String),
    JsonParseError(),
    MultipleGithubErrors(Vec<String>),
}

/// The name of a tag entry: the text under `name` where the entry is an
/// object and that value is a string.
pub open spec fn entry_name(m: JsonModel) -> Option<Seq<char>> {
    match object_fields(m) {
        Some(fields) => match field(fields, "name"@) {
            Some(v) => string_text(v),
            None => None,
        },
        None => None,
    }
}

/// The names of the tag entries that have one, in order.
pub open spec fn entry_names(items: Seq<JsonModel>) -> Seq<Seq<char>>
    decreases items.len(),
{
    if items.len() == 0 {
        Seq::empty()
    } else {
        let rest = entry_names(items.drop_last());
        match entry_name(items.last()) {
            Some(n) => rest.push(n),
            None => rest,
        }
    }
}

/// The name of a tag entry of the GitHub API.
pub fn get_tag_name(entry: &serde_json::Value) -> (r: Result<&str, GetTagsError>)
    ensures
        r is Ok <==> entry_name(json_model(*entry)) is Some,
        r matches Ok(name) ==> entry_name(json_model(*entry)) == Some(name@),
        r matches Err(e) ==> (if object_fields(json_model(*entry)) is Some {
            e is ExpectedJsonName
        } else {
            e is ExpectedJsonObjectError
        }),
{
    let fields = match value_as_object(entry) {
        Some(fields) => fields,
        None => return Err(GetTagsError::ExpectedJsonObjectError()),
    };
    let name = match object_get(fields, "name") {
        Some(name) => name,
        None => return Err(GetTagsError::ExpectedJsonName()),
    };
    match value_as_str(name) {
        Some(s) => Ok(s),
        None => Err(GetTagsError::ExpectedJsonName()),
    }
}

/// The tag names in a response of the GitHub API: the JSON text must be an
/// array; its entries without a name are passed over.
pub fn parse_tags_json(json_to_parse: &str) -> (r: Result<Vec<String>, GetTagsError>)
    ensures
        match json_parse(json_to_parse@) {
            None => r matches Err(e) && e is JsonParseError,
            Some(m) => match array_items(m) {
                None => r matches Err(e) && e is ExpectedJsonArrayError,
                Some(items) => r matches Ok(names) && views(names@) == entry_names(items),
            },
        },
{
    let v = match parse_json(json_to_parse) {
        Some(v) => v,
        None => return Err(GetTagsError::JsonParseError()),
    };
    let entries = match value_as_array(&v) {
        Some(entries) => entries,
        None => return Err(GetTagsError::ExpectedJsonArrayError()),
    };
    let ghost items = models(entries@);
    let mut names: Vec<String> = Vec::new();
    let n = entries.len();
    let mut i: usize = 0;
    while i < n
        invariant
            n == entries@.len(),
            items == models(entries@),
            i <= n,
            views(names@) == entry_names(items.take(i as int)),
        decreases n - i,
    {
        assert(items.take(i + 1).drop_last() =~= items.take(i as int));
        assert(items[i as int] == json_model(entries@[i as int]));
        match get_tag_name(&entries[i]) {
            Ok(name) => {
                let s = String::from_str(name);
                names.push(s);
                assert(views(names@) =~= entry_names(items.take(i as int)).push(s@));
            },
            Err(_) => {},
        }
        i = i + 1;
    }
    assert(items.take(n as int) =~= items);
    Ok(names)
}

/// The message of an error.
pub open spec fn tags_error_text(e: GetTagsError) -> Seq<char> {
    match e {
        GetTagsError::ExpectedJsonArrayError() => "json array not found where expected in response."@,
        GetTagsError::ExpectedJsonName() => "name not found where expected in json response."@,
        GetTagsError::ExpectedJsonObjectError() => "object not found where expected in json response."@,
        GetTagsError::FromUtf8Error(m) => "error parsing response as UTF8: "@ + m@ + "."@,
        GetTagsError::HyperError(m) => "hyper error: "@ + m@ + "."@,
        GetTagsError::HyperHttpError(m) => "hyper http error: "@ + m@ + "."@,
        GetTagsError::HyperHttpStatusError(s) => "unexpected http status: "@ + s@ + "."@,
        GetTagsError::JsonParseError() => "error parsing json response"@,
        GetTagsError::MultipleGithubErrors(errs) => join_seqs(views(errs@), "\n"@),
    }
}

impl GetTagsError {
    /// The message of the error (its `Debug` and `Display`).
    pub fn fmt(&self) -> (r: String)
        ensures
            r@ == tags_error_text(*self),
    {
        match self {
            GetTagsError::ExpectedJsonArrayError() => String::from_str(
                "json array not found where expected in response.",
            ),
            GetTagsError::ExpectedJsonName() => String::from_str(
                "name not found where expected in json response.",
            ),
            GetTagsError::ExpectedJsonObjectError() => String::from_str(
                "object not found where expected in json response.",
            ),
            GetTagsError::FromUtf8Error(m) => {
                let mut r = String::from_str("error parsing response as UTF8: ");
                r.append(m.as_str());
                r.append(".");
                r
            },
            GetTagsError::HyperError(m) => {
                let mut r = String::from_str("hyper error: ");
                r.append(m.as_str());
                r.append(".");
                r
            },
            GetTagsError::HyperHttpError(m) => {
                let mut r = String::from_str("hyper http error: ");
                r.append(m.as_str());
                r.append(".");
                r
            },
            GetTagsError::HyperHttpStatusError(s) => {
                let mut r = String::from_str("unexpected http status: ");
                r.append(s.as_str());
                r.append(".");
                r
            },
            GetTagsError::JsonParseError() => String::from_str("error parsing json response"),
            GetTagsError::MultipleGithubErrors(errs) => join(errs, "\n"),
        }
    }
}

} // verus!
