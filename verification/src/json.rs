//! JSON text of string lists, as the index stores languages and frameworks.
use vstd::prelude::*;
use crate::text::{seq_join, views};

verus! {

/// Hex digit, lower case.
pub open spec fn hex_lower(d: nat) -> char {
    if d < 10 {
        (d + 48) as char
    } else {
        (d + 87) as char
    }
}

/// How `serde_json` writes one character inside a string literal.
pub open spec fn json_escape_char(c: char) -> Seq<char> {
    if c == '"' {
        seq!['\\', '"']
    } else if c == '\\' {
        seq!['\\', '\\']
    } else if c == '\x08' {
        seq!['\\', 'b']
    } else if c == '\t' {
        seq!['\\', 't']
    } else if c == '\n' {
        seq!['\\', 'n']
    } else if c == '\x0C' {
        seq!['\\', 'f']
    } else if c == '\r' {
        seq!['\\', 'r']
    } else if (c as u32) < 0x20 {
        seq!['\\', 'u', '0', '0', hex_lower((c as u32 / 16) as nat), hex_lower((c as u32 % 16) as nat)]
    } else {
        seq![c]
    }
}

/// The escaped body of a JSON string literal.
pub open spec fn json_escape(s: Seq<char>) -> Seq<char>
    decreases s.len(),
{
    if s.len() == 0 {
        Seq::empty()
    } else {
        json_escape(s.drop_last()) + json_escape_char(s.last())
    }
}

/// A JSON string literal.
pub open spec fn json_quote(s: Seq<char>) -> Seq<char> {
    seq!['"'] + json_escape(s) + seq!['"']
}

/// Compact JSON text of a list of strings: `["a","b"]`.
pub open spec fn json_string_array(v: Seq<Seq<char>>) -> Seq<char> {
    seq!['['] + seq_join(v.map_values(|s: Seq<char>| json_quote(s)), seq![',']) + seq![']']
}

/// What `serde_json::from_str::<Vec<String>>` yields for a text.
pub uninterp spec fn json_string_list(text: Seq<char>) -> Option<Seq<Seq<char>>>;

/// `serde_json::to_string` of a list of strings.
/// Trusted: the compact form `["a","b"]`, with `"`, `\` and control characters escaped
/// as `serde_json` escapes them (`\b \t \n \f \r`, other controls as `\u00xx`).
#[verifier::external_body]
pub(crate) fn json_encode_strings(v: &Vec<String>) -> (r: String)
    ensures
        r@ == json_string_array(views(v@)),
{
    serde_json::to_string(v).unwrap_or_default()
}

/// `serde_json::from_str::<Vec<String>>`, `None` when the text is not a JSON array of strings.
/// Trusted: the result is named by `json_string_list`, and the text that
/// [`json_encode_strings`] writes for a list reads back as that list.
#[verifier::external_body]
pub(crate) fn json_decode_strings(text: &str) -> (r: Option<Vec<String>>)
    ensures
        match json_string_list(text@) {
            Some(v) => r matches Some(x) && views(x@) == v,
            None => r is None,
        },
        forall|v: Seq<Seq<char>>|
            #![trigger json_string_array(v)]
            text@ == json_string_array(v) ==> r is Some && views(r.unwrap()@) == v,
{
    serde_json::from_str::<Vec<String>>(text).ok()
}

} // verus!
