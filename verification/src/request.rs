//! The request dispatcher's decisions: which request a command asks for.

use vstd::prelude::*;
use vstd::string::*;
use crate::args::{Command, KvPair, pairs_view};
use crate::error::RequestError;

verus! {

/// A field of a JSON object, or a header, as a pair of texts.
pub type Field = (Seq<char>, Seq<char>);

/// The HTTP method of a request.
#[derive(Debug, Clone, Copy, PartialEq, Eq, Structural)]
pub enum Method {
    Get,
    Post,
}

/// One request header.
#[derive(Debug, Clone, PartialEq, Eq)]
pub struct RequestHeader {
    pub name: String,
    pub value: String,
}

impl View for RequestHeader {
    type V = Field;

    open spec fn view(&self) -> Field {
        (self.name@, self.value@)
    }
}

/// A request, ready to be sent.
#[derive(Debug, Clone, PartialEq, Eq)]
pub struct Request {
    pub method: Method,
    pub url: String,
    pub headers: Vec<RequestHeader>,
    pub body: Option<String>,
}

/// A request as plain values.
pub struct RequestView {
    pub method: Method,
    pub url: Seq<char>,
    pub headers: Seq<Field>,
    pub body: Option<Seq<char>>,
}

impl View for Request {
    type V = RequestView;

    open spec fn view(&self) -> RequestView {
        RequestView {
            method: self.method,
            url: self.url@,
            headers: self.headers@.map_values(|h: RequestHeader| h@),
            body: match self.body {
                Some(text) => Some(text@),
                None => None,
            },
        }
    }
}

/// The header that marks what the client is written in.
pub open spec fn powered_by() -> Field {
    ("X-POWERED-BY"@, "Rust"@)
}

/// The header that names the client.
pub open spec fn user_agent() -> Field {
    ("user-agent"@, "Rust Httpie"@)
}

/// The header that announces a JSON body.
pub open spec fn json_content_type() -> Field {
    ("content-type"@, "application/json"@)
}

/// The headers that every request carries.
pub open spec fn default_headers() -> Seq<Field> {
    seq![powered_by(), user_agent()]
}

/// Some field of `fields` has the key `key`.
pub open spec fn has_key(fields: Seq<Field>, key: Seq<char>) -> bool {
    exists|i: int| 0 <= i < fields.len() && (#[trigger] fields[i]).0 == key
}

/// No key occurs twice in `fields`.
pub open spec fn distinct_keys(fields: Seq<Field>) -> bool {
    forall|i: int, j: int|
        0 <= i < j < fields.len() ==> (#[trigger] fields[i]).0 != (#[trigger] fields[j]).0
}

/// `fields` with `field` written into it: in place of the field with the
/// same key if there is one, else at the end.
pub open spec fn upsert(fields: Seq<Field>, field: Field) -> Seq<Field> {
    if has_key(fields, field.0) {
        fields.map_values(
            |f: Field|
                if f.0 == field.0 {
                    field
                } else {
                    f
                },
        )
    } else {
        fields.push(field)
    }
}

/// The fields of the JSON object that `pairs` make: each key once, at the
/// place of its first occurrence, with the value of its last. The order is
/// that of this list only: the object is the mapping `object_of`, and its
/// JSON text has the fields in the order of their keys.
pub open spec fn merged(pairs: Seq<Field>) -> Seq<Field>
    decreases pairs.len(),
{
    if pairs.len() == 0 {
        Seq::empty()
    } else {
        upsert(merged(pairs.drop_last()), pairs.last())
    }
}

/// The mapping that `pairs` build when they are written into it one after
/// the other.
pub open spec fn object_of(pairs: Seq<Field>) -> Map<Seq<char>, Seq<char>>
    decreases pairs.len(),
{
    if pairs.len() == 0 {
        Map::empty()
    } else {
        object_of(pairs.drop_last()).insert(pairs.last().0, pairs.last().1)
    }
}

/// Writing a field keeps the keys distinct, and changes the mapping as an
/// insertion does.
pub proof fn upsert_is_insert(fields: Seq<Field>, field: Field)
    requires
        distinct_keys(fields),
    ensures
        distinct_keys(upsert(fields, field)),
        object_of(upsert(fields, field)) == object_of(fields).insert(field.0, field.1),
        forall|key: Seq<char>|
            has_key(upsert(fields, field), key) <==> has_key(fields, key) || key == field.0,
    decreases fields.len(),
{
    let out = upsert(fields, field);
    assert forall|key: Seq<char>| has_key(out, key) <==> has_key(fields, key) || key
        == field.0 by {
        if has_key(fields, field.0) {
            let w = choose|i: int| 0 <= i < fields.len() && (#[trigger] fields[i]).0 == field.0;
            assert(out[w].0 == field.0);
            if has_key(fields, key) {
                let i = choose|i: int| 0 <= i < fields.len() && (#[trigger] fields[i]).0 == key;
                assert(out[i].0 == key);
            }
            if has_key(out, key) {
                let i = choose|i: int| 0 <= i < out.len() && (#[trigger] out[i]).0 == key;
                assert(fields[i].0 == key || key == field.0);
            }
        } else {
            assert(out[fields.len() as int].0 == field.0);
            if has_key(fields, key) {
                let i = choose|i: int| 0 <= i < fields.len() && (#[trigger] fields[i]).0 == key;
                assert(out[i].0 == key);
            }
            if has_key(out, key) {
                let i = choose|i: int| 0 <= i < out.len() && (#[trigger] out[i]).0 == key;
                if i < fields.len() {
                    assert(fields[i].0 == key);
                }
            }
        }
    }
    if fields.len() == 0 {
        assert(out =~= seq![field]);
        assert(out.drop_last() =~= fields);
        assert(object_of(out) == object_of(fields).insert(field.0, field.1));
    } else if has_key(fields, field.0) {
        let last = fields.last();
        let rest = fields.drop_last();
        assert(distinct_keys(rest));
        if last.0 == field.0 {
            assert(!has_key(rest, field.0)) by {
                if has_key(rest, field.0) {
                    let i = choose|i: int| 0 <= i < rest.len() && (#[trigger] rest[i]).0 == field.0;
                    assert(fields[i].0 == fields[fields.len() - 1].0);
                }
            }
            assert(out.drop_last() =~= rest);
            assert(out.last() == field);
            assert(object_of(out) =~= object_of(fields).insert(field.0, field.1));
        } else {
            let w = choose|i: int| 0 <= i < fields.len() && (#[trigger] fields[i]).0 == field.0;
            assert(rest[w].0 == field.0);
            upsert_is_insert(rest, field);
            assert(out.drop_last() =~= upsert(rest, field));
            assert(out.last() == last);
            assert(object_of(out) =~= object_of(fields).insert(field.0, field.1));
        }
    } else {
        assert(out.drop_last() =~= fields);
    }
}

/// The merged fields hold each key once and build the same mapping as the
/// pairs they come from, with the same keys.
pub proof fn merged_is_object(pairs: Seq<Field>)
    ensures
        distinct_keys(merged(pairs)),
        object_of(merged(pairs)) == object_of(pairs),
        forall|key: Seq<char>| has_key(merged(pairs), key) <==> has_key(pairs, key),
    decreases pairs.len(),
{
    if pairs.len() > 0 {
        let rest = pairs.drop_last();
        merged_is_object(rest);
        upsert_is_insert(merged(rest), pairs.last());
        assert forall|key: Seq<char>| has_key(merged(pairs), key) <==> has_key(pairs, key) by {
            if has_key(pairs, key) {
                let i = choose|i: int| 0 <= i < pairs.len() && (#[trigger] pairs[i]).0 == key;
                if i < rest.len() {
                    assert(rest[i].0 == key);
                }
            }
            if has_key(rest, key) {
                let i = choose|i: int| 0 <= i < rest.len() && (#[trigger] rest[i]).0 == key;
                assert(pairs[i].0 == key);
            }
            if key == pairs.last().0 {
                assert(pairs[pairs.len() - 1].0 == key);
            }
        }
    } else {
        assert(!has_key(merged(pairs), arbitrary()));
    }
}

/// The last write wins: the value that the mapping gives a key is that of
/// the last pair with this key.
pub proof fn last_write_wins(pairs: Seq<Field>, i: int)
    requires
        0 <= i < pairs.len(),
        forall|j: int| i < j < pairs.len() ==> (#[trigger] pairs[j]).0 != pairs[i].0,
    ensures
        object_of(pairs).dom().contains(pairs[i].0),
        object_of(pairs)[pairs[i].0] == pairs[i].1,
        object_of(merged(pairs))[pairs[i].0] == pairs[i].1,
    decreases pairs.len(),
{
    merged_is_object(pairs);
    if i < pairs.len() - 1 {
        let rest = pairs.drop_last();
        assert(pairs[pairs.len() - 1].0 != pairs[i].0);
        assert forall|j: int| i < j < rest.len() implies (#[trigger] rest[j]).0 != rest[i].0 by {
            assert(pairs[j].0 != pairs[i].0);
        }
        last_write_wins(rest, i);
    }
}

/// Where the key stands in `fields`, if it does.
fn find_key(fields: &Vec<KvPair>, key: &String) -> (r: Option<usize>)
    ensures
        match r {
            Some(i) => i < fields.len() && fields[i as int].k@ == key@,
            None => !has_key(pairs_view(fields@), key@),
        },
{
    let mut i: usize = 0;
    while i < fields.len()
        invariant
            i <= fields.len(),
            forall|j: int| 0 <= j < i ==> (#[trigger] pairs_view(fields@)[j]).0 != key@,
        decreases fields.len() - i,
    {
        if fields[i].k == *key {
            return Some(i);
        }
        i += 1;
    }
    None
}

/// Builds the object's fields from the pairs: a later pair with a key that
/// was seen replaces the value, a pair with a new key is added at the end.
/// The fields stand in a vector, in which a key is found by comparing
/// strings: of a hash map with strings as keys Verus knows too little
/// to prove which value a key ends up with.
pub fn merge_pairs(pairs: &Vec<KvPair>) -> (out: Vec<KvPair>)
    ensures
        pairs_view(out@) == merged(pairs_view(pairs@)),
        distinct_keys(pairs_view(out@)),
        object_of(pairs_view(out@)) == object_of(pairs_view(pairs@)),
{
    let mut out: Vec<KvPair> = Vec::new();
    let mut i: usize = 0;
    assert(pairs_view(pairs@).take(0) =~= Seq::empty());
    assert(pairs_view(out@) =~= Seq::empty());
    while i < pairs.len()
        invariant
            i <= pairs.len(),
            pairs_view(out@) == merged(pairs_view(pairs@).take(i as int)),
            distinct_keys(pairs_view(out@)),
        decreases pairs.len() - i,
    {
        let ghost before = pairs_view(out@);
        let ghost field = pairs[i as int]@;
        let ghost seen = pairs_view(pairs@).take(i + 1);
        proof {
            assert(seen.drop_last() =~= pairs_view(pairs@).take(i as int));
            assert(seen.last() == field);
            upsert_is_insert(before, field);
        }
        let pair = pairs[i].duplicate();
        match find_key(&out, &pairs[i].k) {
            Some(j) => {
                out.set(j, pair);
                proof {
                    assert(before[j as int].0 == field.0);
                    assert(pairs_view(out@) =~= upsert(before, field));
                }
            },
            None => {
                out.push(pair);
                assert(pairs_view(out@) =~= upsert(before, field));
            },
        }
        i += 1;
    }
    proof {
        assert(pairs_view(pairs@).take(pairs.len() as int) =~= pairs_view(pairs@));
        merged_is_object(pairs_view(pairs@));
    }
    out
}

/// The JSON text that `serde_json::to_string` gives for a map from strings
/// to strings that holds this mapping.
pub uninterp spec fn json_object_text(object: Map<Seq<char>, Seq<char>>) -> Seq<char>;

/// Collects the fields, whose keys are distinct, into a map and calls
/// `serde_json::to_string` on it. The map keeps its entries in the order of
/// their keys, whatever the order of the fields, so the text is a function
/// of the mapping. The call fails only for a value whose own serialising
/// fails and for keys that are no strings, as its documentation says, so for
/// this map it gives a text.
#[verifier::external_body]
fn write_json_object(fields: &Vec<KvPair>) -> (r: Option<String>)
    requires
        distinct_keys(pairs_view(fields@)),
    ensures
        r is Some,
        r matches Some(text) ==> text@ == json_object_text(object_of(pairs_view(fields@))),
{
    let object: std::collections::BTreeMap<&str, &str> = fields.iter().map(
        |f| (f.k.as_str(), f.v.as_str()),
    ).collect();
    serde_json::to_string(&object).ok()
}

/// The GET request for `url`.
pub open spec fn get_request(url: Seq<char>) -> RequestView {
    RequestView { method: Method::Get, url, headers: default_headers(), body: None }
}

/// The POST request that sends `body` as JSON to `url`.
pub open spec fn post_request(url: Seq<char>, body: Seq<char>) -> RequestView {
    RequestView {
        method: Method::Post,
        url,
        headers: default_headers().push(json_content_type()),
        body: Some(body),
    }
}

/// The headers that every request carries.
pub fn base_headers() -> (out: Vec<RequestHeader>)
    ensures
        out@.map_values(|h: RequestHeader| h@) == default_headers(),
{
    let mut out: Vec<RequestHeader> = Vec::new();
    out.push(
        RequestHeader { name: String::from_str("X-POWERED-BY"), value: String::from_str("Rust") },
    );
    out.push(
        RequestHeader {
            name: String::from_str("user-agent"),
            value: String::from_str("Rust Httpie"),
        },
    );
    assert(out@.map_values(|h: RequestHeader| h@) =~= default_headers());
    out
}

/// Describes the GET request for `url`: the fixed headers and no body.
pub fn get(url: &str) -> (r: Request)
    ensures
        r@ == get_request(url@),
{
    Request { method: Method::Get, url: String::from_str(url), headers: base_headers(), body: None }
}

/// Describes the POST request for `url` from the JSON text of its body, if
/// there is one.
pub fn post_with_body(url: &str, body: Option<String>) -> (r: Result<Request, RequestError>)
    ensures
        match body {
            Some(text) => r matches Ok(request) && request@ == post_request(url@, text@),
            None => r == Err::<Request, RequestError>(RequestError::Body),
        },
{
    match body {
        Some(text) => {
            let mut headers = base_headers();
            let ghost before = headers@;
            headers.push(
                RequestHeader {
                    name: String::from_str("content-type"),
                    value: String::from_str("application/json"),
                },
            );
            assert(headers@.map_values(|h: RequestHeader| h@) =~= before.map_values(
                |h: RequestHeader| h@,
            ).push(json_content_type()));
            Ok(Request { method: Method::Post, url: String::from_str(url), headers, body: Some(text) })
        },
        None => Err(RequestError::Body),
    }
}

/// Describes the POST request for `url` whose body is the JSON object that
/// `pairs` make, where a later pair overrides an earlier one with its key.
/// There is such a request for every list of pairs.
pub fn post(url: &str, pairs: &Vec<KvPair>) -> (r: Result<Request, RequestError>)
    ensures
        r matches Ok(request) && request@ == post_request(
            url@,
            json_object_text(object_of(pairs_view(pairs@))),
        ),
{
    let fields = merge_pairs(pairs);
    post_with_body(url, write_json_object(&fields))
}

/// The request that `command` asks for; there is one for every command. A
/// GET has no body. A POST has a JSON object as its body and says so in its
/// content type. Both carry the two fixed headers.
pub fn request_for(command: &Command) -> (r: Result<Request, RequestError>)
    ensures
        r is Ok,
        command is Get ==> (r matches Ok(request) && request@ == get_request(command.target())),
        command is Post ==> (r matches Ok(request) && request@ == post_request(
            command.target(),
            json_object_text(object_of(command.fields())),
        )),
        r matches Ok(request) ==> {
            &&& request@.headers.contains(powered_by())
            &&& request@.headers.contains(user_agent())
            &&& command is Get ==> request@.body is None
            &&& command is Post ==> request@.body is Some && request@.headers.contains(
                json_content_type(),
            )
        },
{
    proof {
        assert(default_headers()[0] == powered_by());
        assert(default_headers()[1] == user_agent());
        assert(default_headers().push(json_content_type())[0] == powered_by());
        assert(default_headers().push(json_content_type())[1] == user_agent());
        assert(default_headers().push(json_content_type())[2] == json_content_type());
    }
    match command {
        Command::Get { url } => Ok(get(url.as_str())),
        Command::Post { url, pairs } => post(url.as_str(), pairs),
    }
}

} // verus!
