//! Serialization of string keys and payloads, through serde_json.

use vstd::prelude::*;

verus! {

/// The JSON text that serde_json produces for a given string: a function
/// of the characters alone, left unspecified here.
pub uninterp spec fn json_str_of(s: Seq<char>) -> Seq<char>;

/// What serde_json parses a given text into, when a string is asked for:
/// the string, if the text is a well-formed JSON string, else nothing.
/// A function of the characters alone, left unspecified here.
pub uninterp spec fn json_str_parse(t: Seq<char>) -> Option<Seq<char>>;

#[verifier::external_type_specification]
#[verifier::external_body]
pub struct ExJsonError(serde_json::Error);

/// Relies on `serde_json::to_string` on a string slice: it always
/// succeeds (string serialization writes into a vector, which cannot
/// fail), and the JSON text depends on the characters alone.
#[verifier::external_body]
pub(crate) fn json_encode_str(s: &str) -> (r: Result<String, serde_json::Error>)
    ensures
        r is Ok,
        r matches Ok(t) ==> t@ == json_str_of(s@),
{
    serde_json::to_string(s)
}

/// Relies on `serde_json::from_str` for `String`: the outcome depends on
/// the text alone — success exactly on a well-formed JSON string, whose
/// content is returned — and parsing the JSON text that
/// `serde_json::to_string` produced for a string gives that string back.
#[verifier::external_body]
pub(crate) fn json_decode_str(t: &str) -> (r: Result<String, serde_json::Error>)
    ensures
        r is Ok <==> json_str_parse(t@) is Some,
        r matches Ok(v) ==> json_str_parse(t@) == Some(v@),
        forall|s: Seq<char>| t@ == json_str_of(s) ==> r is Ok && r->Ok_0@ == s,
{
    serde_json::from_str::<String>(t)
}

} // verus!
