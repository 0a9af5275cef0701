//! Decoding the untrusted request body into a submission.
//!
//! The body must be one JSON object whose members are all strings, with
//! at least the four required fields. No further semantic validation is
//! performed; the repository-hosting platform's own content rules are the
//! backstop.

use vstd::prelude::*;
use crate::respond::Error;

verus! {

/// The raw, untrusted client input: where the comment goes and what it
/// says.
#[derive(Debug)]
pub struct Post {
    pub path: String,
    pub message: String,
    pub name: String,
    pub url: String,
}

/// What the body denotes, if it is one JSON object whose members are all
/// strings: the map from member names to values. Anything else — malformed
/// syntax, a non-object, a member that is not a string — denotes nothing.
pub uninterp spec fn json_string_map(b: Seq<u8>) -> Option<Map<Seq<char>, Seq<char>>>;

/// Relies on `serde_json::from_slice` deserializing a
/// `HashMap<String, String>`: it succeeds exactly when the bytes are one
/// JSON object whose members are all strings, and yields those members.
/// The order of the returned pairs is unspecified.
#[verifier::external_body]
fn parse_json_object(b: &[u8]) -> (r: Option<Vec<(String, String)>>)
    ensures
        (r is Some) == (json_string_map(b@) is Some),
        r matches Some(v) ==> {
            let m = json_string_map(b@)->Some_0;
            &&& forall|i: int|
                0 <= i < v@.len() ==> m.contains_key((#[trigger] v@[i]).0@) && m[v@[i].0@]
                    == v@[i].1@
            &&& forall|k: Seq<char>|
                m.contains_key(k) ==> exists|i: int| 0 <= i < v@.len() && (#[trigger] v@[i]).0@ == k
        },
{
    let m: std::collections::HashMap<String, String> = match serde_json::from_slice(b) {
        Ok(m) => m,
        Err(_) => return None,
    };
    Some(m.into_iter().collect())
}

/// The value of one member of the parsed object, if present.
fn find_field(v: &Vec<(String, String)>, key: &String) -> (r: Option<String>)
    ensures
        r matches Some(s) ==> exists|i: int|
            0 <= i < v@.len() && (#[trigger] v@[i]).0@ == key@ && v@[i].1@ == s@,
        r is None ==> forall|i: int| 0 <= i < v@.len() ==> (#[trigger] v@[i]).0@ != key@,
{
    let mut i: usize = 0;
    while i < v.len()
        invariant
            i <= v@.len(),
            forall|j: int| 0 <= j < i ==> (#[trigger] v@[j]).0@ != key@,
        decreases v@.len() - i,
    {
        if v[i].0.eq(key) {
            return Some(v[i].1.clone());
        }
        i = i + 1;
    }
    None
}

/// Whether the object has all four required fields.
pub open spec fn has_required_fields(m: Map<Seq<char>, Seq<char>>) -> bool {
    &&& m.contains_key("path"@)
    &&& m.contains_key("message"@)
    &&& m.contains_key("name"@)
    &&& m.contains_key("url"@)
}

/// What a well-formed body decodes to.
pub open spec fn decoded_post(b: Seq<u8>, p: Post) -> bool {
    &&& json_string_map(b) matches Some(m)
    &&& has_required_fields(json_string_map(b)->Some_0)
    &&& p.path@ == json_string_map(b)->Some_0["path"@]
    &&& p.message@ == json_string_map(b)->Some_0["message"@]
    &&& p.name@ == json_string_map(b)->Some_0["name"@]
    &&& p.url@ == json_string_map(b)->Some_0["url"@]
}

/// Decodes the request body. It succeeds, with every field preserved
/// verbatim, exactly when the body is one JSON object of strings that has
/// the four required fields; anything else is an invalid submission.
pub fn decode_submission(b: &[u8]) -> (r: Result<Post, Error>)
    ensures
        r matches Ok(p) ==> decoded_post(b@, p),
        r matches Err(e) ==> e == Error::InvalidSubmission && (json_string_map(b@) is None
            || !has_required_fields(json_string_map(b@)->Some_0)),
{
    let pairs = match parse_json_object(b) {
        Some(pairs) => pairs,
        None => {
            return Err(Error::InvalidSubmission);
        },
    };
    let path = find_field(&pairs, &"path".to_owned());
    let message = find_field(&pairs, &"message".to_owned());
    let name = find_field(&pairs, &"name".to_owned());
    let url = find_field(&pairs, &"url".to_owned());
    match (path, message, name, url) {
        (Some(path), Some(message), Some(name), Some(url)) => Ok(
            Post { path, message, name, url },
        ),
        _ => Err(Error::InvalidSubmission),
    }
}

} // verus!
