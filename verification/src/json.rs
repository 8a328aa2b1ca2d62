//! The JSON form of a command line (a list of strings), as `serde_json`
//! reads and writes it.

use vstd::prelude::*;

verus! {

/// Lowercase hexadecimal digit for a value below sixteen.
pub open spec fn hex_digit(d: nat) -> char {
    if d < 10 {
        (('0' as u32) + d) as char
    } else {
        (('a' as u32) + d - 10) as char
    }
}

/// How `serde_json` writes one character inside a string literal: quote and
/// backslash are escaped, control characters use their short escape or
/// `\u00XX`, everything else is written as is.
pub open spec fn json_char_escape(c: char) -> Seq<char> {
    if c == '"' {
        seq!['\\', '"']
    } else if c == '\\' {
        seq!['\\', '\\']
    } else if c == '\x08' {
        seq!['\\', 'b']
    } else if c == '\t' {
        seq!['\\', 't']
    } else if c == '\n' {
        seq!['\\', 'n']
    } else if c == '\x0c' {
        seq!['\\', 'f']
    } else if c == '\r' {
        seq!['\\', 'r']
    } else if (c as u32) < 0x20 {
        seq!['\\', 'u', '0', '0', hex_digit((c as u32) as nat / 16), hex_digit((c as u32) as nat % 16)]
    } else {
        seq![c]
    }
}

/// The escaped body of a JSON string literal.
pub open spec fn json_escape(s: Seq<char>) -> Seq<char>
    decreases s.len(),
{
    if s.len() == 0 {
        seq![]
    } else {
        json_escape(s.drop_last()) + json_char_escape(s.last())
    }
}

/// A JSON string literal.
pub open spec fn json_string(s: Seq<char>) -> Seq<char> {
    seq!['"'] + json_escape(s) + seq!['"']
}

/// The comma-separated string literals of a list.
pub open spec fn json_items(v: Seq<Seq<char>>) -> Seq<char>
    decreases v.len(),
{
    if v.len() == 0 {
        seq![]
    } else if v.len() == 1 {
        json_string(v[0])
    } else {
        json_items(v.drop_last()) + seq![','] + json_string(v.last())
    }
}

/// The compact JSON array of strings that `serde_json::to_string` writes.
pub open spec fn json_string_list_text(v: Seq<Seq<char>>) -> Seq<char> {
    seq!['['] + json_items(v) + seq![']']
}

/// What `serde_json::from_str::<Vec<String>>` gives for a text: the list of
/// strings, or the text of its error (`Error`'s `Display`) when the text is
/// not a JSON array of strings.
pub uninterp spec fn json_string_list(text: Seq<char>) -> Result<Seq<Seq<char>>, Seq<char>>;

/// Encodes a command line as a JSON array of strings.
///
/// Trusted: calls `serde_json::to_string` on a slice of `String`s. The
/// contract claims what serde_json's compact serializer writes for a
/// sequence of strings (its `ESCAPE` table and `CompactFormatter`), that it
/// does not fail for such a value (strings never fail to serialize and
/// writing to a `Vec<u8>` never fails), and that `serde_json::from_str`
/// reads the same list back from that text.
#[verifier::external_body]
pub(crate) fn encode_string_list(values: &[String]) -> (r: Result<String, String>)
    ensures
        r is Ok,
        r matches Ok(text) ==> text@ == json_string_list_text(values.deep_view()),
        r matches Ok(text) ==> (json_string_list(text@) matches Ok(v) && v == values.deep_view()),
{
    serde_json::to_string(values).map_err(|error| error.to_string())
}

/// Decodes a JSON array of strings.
///
/// Trusted: calls `serde_json::from_str::<Vec<String>>`. The contract claims
/// that it gives what `json_string_list` names: the list, or the error's
/// text.
#[verifier::external_body]
pub(crate) fn decode_string_list(text: &str) -> (r: Result<Vec<String>, String>)
    ensures
        r is Ok <==> json_string_list(text@) is Ok,
        r matches Ok(v) ==> (json_string_list(text@) matches Ok(w) && w == v.deep_view()),
        r matches Err(e) ==> (json_string_list(text@) matches Err(m) && m == e@),
{
    serde_json::from_str::<Vec<String>>(text).map_err(|error| error.to_string())
}

} // verus!
