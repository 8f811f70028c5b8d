//! JSON documents as plain values: the parsed form of the registry files and
//! manifests, a mathematical view of it, and the few operations on objects
//! that the registry needs (look a key up, insert a key, take a value out).
//! Parsing and pretty-printing are serde_json's.
use vstd::prelude::*;
use crate::catalog::JsonText;
use crate::text::{owned, same_text};

verus! {

broadcast use vstd::string::group_string_axioms;

/// A JSON value. Numbers are kept as the text serde_json prints for them;
/// an object is its list of members in order.
#[derive(Debug)]
pub enum Json {
    Null,
    Bool(bool),
    Number(String),
    Str(String),
    Array(Vec<Json>),
    Object(Vec<(String, Json)>),
}

/// The mathematical value of a `Json`.
pub enum JsonV {
    Null,
    Bool(bool),
    Number(Seq<char>),
    Str(Seq<char>),
    Array(Seq<JsonV>),
    Object(Seq<(Seq<char>, JsonV)>),
}

/// The value of `j`.
pub open spec fn jview(j: Json) -> JsonV
    decreases j,
{
    match j {
        Json::Null => JsonV::Null,
        Json::Bool(b) => JsonV::Bool(b),
        Json::Number(n) => JsonV::Number(n@),
        Json::Str(s) => JsonV::Str(s@),
        Json::Array(items) => JsonV::Array(
            Seq::new(
                items@.len(),
                |i: int|
                    if 0 <= i < items@.len() {
                        jview(items@[i])
                    } else {
                        JsonV::Null
                    },
            ),
        ),
        Json::Object(fields) => JsonV::Object(
            Seq::new(
                fields@.len(),
                |i: int|
                    if 0 <= i < fields@.len() {
                        (fields@[i].0@, jview(fields@[i].1))
                    } else {
                        (Seq::empty(), JsonV::Null)
                    },
            ),
        ),
    }
}

/// The values of a list of `Json`.
pub open spec fn items_view(items: Seq<Json>) -> Seq<JsonV> {
    Seq::new(items.len(), |i: int| jview(items[i]))
}

/// The members of an object, by value.
pub open spec fn fields_view(fields: Seq<(String, Json)>) -> Seq<(Seq<char>, JsonV)> {
    Seq::new(fields.len(), |i: int| (fields[i].0@, jview(fields[i].1)))
}

/// The value of an optional `Json`.
pub open spec fn opt_jview(o: Option<Json>) -> Option<JsonV> {
    match o {
        Some(j) => Some(jview(j)),
        None => None,
    }
}

/// What serde_json parses `text` into, or `None` where it is no JSON.
pub uninterp spec fn json_of(text: Seq<char>) -> Option<JsonV>;

/// The text that serde_json pretty-prints for the value `v`.
pub uninterp spec fn pretty_json(v: JsonV) -> Seq<char>;

/// The document held by a file whose text is `text` (`None` where it could
/// not be read).
pub open spec fn doc_of(text: Option<&str>) -> Option<JsonV> {
    match text {
        Some(t) => json_of(t@),
        None => None,
    }
}

/// The index of the first member of `fields`, from `i` on, named `key`.
pub open spec fn key_index_from(fields: Seq<(Seq<char>, JsonV)>, key: Seq<char>, i: nat) -> Option<int>
    decreases fields.len() - i,
{
    if i >= fields.len() {
        None
    } else if fields[i as int].0 == key {
        Some(i as int)
    } else {
        key_index_from(fields, key, i + 1)
    }
}

/// The index of the first member of `fields` named `key`.
pub open spec fn key_index(fields: Seq<(Seq<char>, JsonV)>, key: Seq<char>) -> Option<int> {
    key_index_from(fields, key, 0)
}

/// The value of the first member named `key` of the object `v` (`None` for
/// anything but an object that has such a member).
pub open spec fn lookup(v: JsonV, key: Seq<char>) -> Option<JsonV> {
    match v {
        JsonV::Object(fields) => match key_index(fields, key) {
            Some(i) => Some(fields[i].1),
            None => None,
        },
        _ => None,
    }
}

/// `lookup` inside an optional value.
pub open spec fn lookup_in(v: Option<JsonV>, key: Seq<char>) -> Option<JsonV> {
    match v {
        Some(x) => lookup(x, key),
        None => None,
    }
}

/// `fields` with the member `key` set to `value`: in its place where there
/// is one, appended where there is none.
pub open spec fn insert_member(fields: Seq<(Seq<char>, JsonV)>, key: Seq<char>, value: JsonV) -> Seq<
    (Seq<char>, JsonV),
> {
    match key_index(fields, key) {
        Some(i) => fields.update(i, (key, value)),
        None => fields.push((key, value)),
    }
}

/// The items of the array `v` (none for anything else).
pub open spec fn items_of(v: Option<JsonV>) -> Seq<JsonV> {
    match v {
        Some(JsonV::Array(items)) => items,
        _ => seq![],
    }
}

/// `t` is what the member of a document found by a lookup says as a string.
pub open spec fn reads_as(found: Option<JsonV>, t: JsonText) -> bool {
    match t {
        JsonText::Missing => found is None,
        JsonText::Text(s) => found == Some(JsonV::Str(s@)),
        JsonText::Other => found is Some && !(found->0 is Str),
    }
}

/// What the first member named `key` from `i` on is, and where.
pub proof fn lemma_key_index_from(fields: Seq<(Seq<char>, JsonV)>, key: Seq<char>, i: nat)
    ensures
        match key_index_from(fields, key, i) {
            Some(k) => i <= k < fields.len() && fields[k].0 == key && forall|j: int|
                i <= j < k ==> #[trigger] fields[j].0 != key,
            None => forall|j: int| i <= j < fields.len() ==> #[trigger] fields[j].0 != key,
        },
    decreases fields.len() - i,
{
    if i < fields.len() {
        lemma_key_index_from(fields, key, i + 1);
    }
}

/// What the first member of `fields` named `key` is, and where.
pub proof fn lemma_key_index(fields: Seq<(Seq<char>, JsonV)>, key: Seq<char>)
    ensures
        match key_index(fields, key) {
            Some(k) => 0 <= k < fields.len() && fields[k].0 == key && forall|j: int|
                0 <= j < k ==> #[trigger] fields[j].0 != key,
            None => forall|j: int| 0 <= j < fields.len() ==> #[trigger] fields[j].0 != key,
        },
{
    lemma_key_index_from(fields, key, 0);
}

/// Where two member lists agree on their names, the first member named `key`
/// stands at the same place.
pub proof fn lemma_key_index_same_names(
    a: Seq<(Seq<char>, JsonV)>,
    b: Seq<(Seq<char>, JsonV)>,
    key: Seq<char>,
)
    requires
        a.len() == b.len(),
        forall|j: int| 0 <= j < a.len() ==> #[trigger] a[j].0 == b[j].0,
    ensures
        key_index(a, key) == key_index(b, key),
{
    lemma_key_index(a, key);
    lemma_key_index(b, key);
    match key_index(a, key) {
        Some(k) => {
            match key_index(b, key) {
                Some(m) => {
                    if k < m {
                        assert(b[k].0 != key);
                    } else if m < k {
                        assert(a[m].0 != key);
                    }
                },
                None => {
                    assert(b[k].0 == a[k].0);
                },
            }
        },
        None => {
            match key_index(b, key) {
                Some(m) => {
                    assert(a[m].0 == b[m].0);
                },
                None => {},
            }
        },
    }
}

/// The view of an array is the view of its items; that of an object, the
/// view of its members.
pub proof fn lemma_jview_parts(j: Json)
    ensures
        j matches Json::Array(items) ==> jview(j) == JsonV::Array(items_view(items@)),
        j matches Json::Object(fields) ==> jview(j) == JsonV::Object(fields_view(fields@)),
{
    match j {
        Json::Array(items) => {
            assert(items_view(items@) =~= jview(j)->Array_0);
        },
        Json::Object(fields) => {
            assert(fields_view(fields@) =~= jview(j)->Object_0);
        },
        _ => {},
    }
}

/// serde_json's `Value`, which the wrappers below go through.
#[verifier::external_type_specification]
#[verifier::external_body]
pub struct ExJsonValue(serde_json::Value);

/// The `Json` that a `serde_json::Value` is, member by member; numbers as
/// serde_json prints them. No contract: only the wrappers below claim
/// anything, and only of what they return.
#[verifier::external_body]
fn from_value(v: serde_json::Value) -> Json {
    match v {
        serde_json::Value::Null => Json::Null,
        serde_json::Value::Bool(b) => Json::Bool(b),
        serde_json::Value::Number(n) => Json::Number(n.to_string()),
        serde_json::Value::String(s) => Json::Str(s),
        serde_json::Value::Array(a) => Json::Array(a.into_iter().map(from_value).collect()),
        serde_json::Value::Object(o) => Json::Object(o.into_iter().map(|(k, x)| (k, from_value(x))).collect()),
    }
}

/// The `serde_json::Value` that a `Json` is, member by member; a number
/// whose text serde_json does not read becomes `null`. No contract.
#[verifier::external_body]
fn to_value(j: &Json) -> serde_json::Value {
    match j {
        Json::Null => serde_json::Value::Null,
        Json::Bool(b) => serde_json::Value::Bool(*b),
        Json::Number(n) => n.parse::<serde_json::Number>().map(serde_json::Value::Number).unwrap_or(serde_json::Value::Null),
        Json::Str(s) => serde_json::Value::String(s.clone()),
        Json::Array(a) => serde_json::Value::Array(a.iter().map(to_value).collect()),
        Json::Object(o) => serde_json::Value::Object(o.iter().map(|(k, x)| (k.clone(), to_value(x))).collect()),
    }
}

/// `serde_json::from_str` into a `serde_json::Value`, taken over member by
/// member: the result is what serde_json makes of `text`, `None` where it
/// refuses it. What that is, is left to serde_json and named `json_of`.
#[verifier::external_body]
fn parse_json(text: &str) -> (r: Option<Json>)
    ensures
        opt_jview(r) == json_of(text@),
{
    match serde_json::from_str::<serde_json::Value>(text) {
        Ok(v) => Some(from_value(v)),
        Err(_) => None,
    }
}

/// `serde_json::to_string_pretty` of the `serde_json::Value` that `j`
/// stands for (a number whose text serde_json does not read prints as
/// `null`). The text is serde_json's and named `pretty_json`; printing a
/// `Value` does not fail.
#[verifier::external_body]
fn render_json_pretty(j: &Json) -> (r: String)
    ensures
        r@ == pretty_json(jview(*j)),
{
    serde_json::to_string_pretty(&to_value(j)).unwrap_or_default()
}

/// The document in a file's text, `None` where the file could not be read
/// or holds no JSON.
pub fn read_doc(text: Option<&str>) -> (r: Option<Json>)
    ensures
        opt_jview(r) == doc_of(text),
{
    match text {
        Some(t) => parse_json(t),
        None => None,
    }
}

/// The pretty-printed text of `j`, as it is written to a file.
pub(crate) fn render(j: &Json) -> (r: String)
    ensures
        r@ == pretty_json(jview(*j)),
{
    render_json_pretty(j)
}

/// The index of the first member of `fields` named `key`.
pub fn find_key(fields: &Vec<(String, Json)>, key: &str) -> (r: Option<usize>)
    ensures
        match r {
            Some(k) => k < fields@.len() && key_index(fields_view(fields@), key@) == Some(k as int),
            None => key_index(fields_view(fields@), key@) is None,
        },
{
    let ghost fv = fields_view(fields@);
    proof {
        lemma_key_index(fv, key@);
    }
    let mut i: usize = 0;
    while i < fields.len()
        invariant
            i <= fields@.len(),
            fv == fields_view(fields@),
            key_index(fv, key@) == key_index_from(fv, key@, i as nat),
            match key_index(fv, key@) {
                Some(k) => 0 <= k < fv.len(),
                None => true,
            },
        decreases fields@.len() - i,
    {
        if same_text(fields[i].0.as_str(), key) {
            return Some(i);
        }
        i = i + 1;
    }
    None
}

/// The value of the member `key` of `j`, where `j` is an object that has one.
pub fn field<'a>(j: &'a Json, key: &str) -> (r: Option<&'a Json>)
    ensures
        match r {
            Some(x) => lookup(jview(*j), key@) == Some(jview(*x)),
            None => lookup(jview(*j), key@) is None,
        },
{
    proof {
        lemma_jview_parts(*j);
    }
    match j {
        Json::Object(fields) => match find_key(fields, key) {
            Some(k) => Some(&fields[k].1),
            None => None,
        },
        _ => None,
    }
}

/// The member `key` of `j` taken out of it, where `j` is an object that has one.
pub fn take_field(j: Json, key: &str) -> (r: Option<Json>)
    ensures
        opt_jview(r) == lookup(jview(j), key@),
{
    proof {
        lemma_jview_parts(j);
    }
    match j {
        Json::Object(mut fields) => match find_key(&fields, key) {
            Some(k) => {
                let (_, v) = fields.remove(k);
                Some(v)
            },
            None => None,
        },
        _ => None,
    }
}

/// What the member `key` of `j` says as a string.
pub fn text_at(j: &Json, key: &str) -> (r: JsonText)
    ensures
        reads_as(lookup(jview(*j), key@), r),
{
    match field(j, key) {
        None => JsonText::Missing,
        Some(Json::Str(s)) => JsonText::Text(owned(s.as_str())),
        Some(_) => JsonText::Other,
    }
}

/// The items of `j` where it is an array, none otherwise.
pub fn into_items(j: Option<Json>) -> (r: Vec<Json>)
    ensures
        items_view(r@) == items_of(opt_jview(j)),
{
    match j {
        Some(Json::Array(items)) => {
            proof {
                lemma_jview_parts(Json::Array(items));
            }
            items
        },
        _ => Vec::new(),
    }
}

/// Sets the member `key` of the object whose members are `fields` to `value`.
pub fn insert_member_exec(fields: &mut Vec<(String, Json)>, key: String, value: Json)
    ensures
        fields_view(final(fields)@) == insert_member(fields_view(old(fields)@), key@, jview(value)),
{
    match find_key(fields, key.as_str()) {
        Some(k) => {
            let _ = fields.remove(k);
            fields.insert(k, (key, value));
            assert(fields_view(fields@) =~= fields_view(old(fields)@).update(
                k as int,
                (key@, jview(value)),
            ));
        },
        None => {
            fields.push((key, value));
            assert(fields_view(fields@) =~= fields_view(old(fields)@).push((key@, jview(value))));
        },
    }
}


/// The members of an optional value where it is an object (none otherwise).
pub open spec fn members_of(v: Option<JsonV>) -> Seq<(Seq<char>, JsonV)> {
    match v {
        Some(JsonV::Object(fields)) => fields,
        _ => seq![],
    }
}

/// The members of `j` where it is an object, none otherwise.
pub fn into_members(j: Option<Json>) -> (r: Vec<(String, Json)>)
    ensures
        fields_view(r@) == members_of(opt_jview(j)),
{
    match j {
        Some(Json::Object(fields)) => {
            proof {
                lemma_jview_parts(Json::Object(fields));
            }
            fields
        },
        _ => {
            let r: Vec<(String, Json)> = Vec::new();
            assert(fields_view(r@) =~= seq![]);
            r
        },
    }
}

/// A string value.
pub fn str_json(s: &str) -> (r: Json)
    ensures
        jview(r) == JsonV::Str(s@),
{
    Json::Str(owned(s))
}

} // verus!
