//! The JSON documents that the service sends: an object with the single
//! member `message`.

use vstd::prelude::*;
use vstd::utf8::encode_utf8;

verus! {

/// The lower-case hexadecimal digit for `d`.
pub open spec fn hex_char(d: int) -> char {
    "0123456789abcdef"@[d]
}

/// How one character stands inside a JSON string: the quotation mark, the
/// backslash and the control characters below U+0020 are escaped, the
/// common ones by their short form, the others as `\u00` and two
/// hexadecimal digits; every other character stands for itself.
pub open spec fn json_escape(c: char) -> Seq<char> {
    if c == '"' {
        seq!['\\', '"']
    } else if c == '\\' {
        seq!['\\', '\\']
    } else if c == '\u{8}' {
        seq!['\\', 'b']
    } else if c == '\t' {
        seq!['\\', 't']
    } else if c == '\n' {
        seq!['\\', 'n']
    } else if c == '\u{c}' {
        seq!['\\', 'f']
    } else if c == '\r' {
        seq!['\\', 'r']
    } else if (c as u32) < 0x20 {
        seq!['\\', 'u', '0', '0', hex_char(c as int / 16), hex_char(c as int % 16)]
    } else {
        seq![c]
    }
}

/// The JSON string literal for `s`: its escaped characters between two
/// quotation marks.
pub open spec fn json_string(s: Seq<char>) -> Seq<char> {
    seq!['"'] + s.map_values(|c: char| json_escape(c)).flatten() + seq!['"']
}

/// The text of the JSON object whose only member, `message`, is `message`.
pub open spec fn message_json(message: Seq<char>) -> Seq<char> {
    "{\"message\":"@ + json_string(message) + "}"@
}

/// The bytes of `message_json`, in UTF-8.
pub open spec fn message_json_bytes(message: Seq<char>) -> Seq<u8> {
    encode_utf8(message_json(message))
}

/// Calls `serde_json::to_string` on a string slice. The contract claims
/// that the call gives the compact JSON string literal for `text`, with
/// the escapes of `json_escape`; its source writes exactly these, and it
/// cannot fail for a string written into memory.
#[verifier::external_body]
fn quote(text: &str) -> (r: String)
    ensures
        r@ == json_string(text@),
{
    serde_json::to_string(text).unwrap_or_default()
}

/// Writes the JSON object whose only member, `message`, is `message`.
pub fn message_document(message: &str) -> (bytes: Vec<u8>)
    ensures
        bytes@ == message_json_bytes(message@),
{
    let mut text = String::from_str("{\"message\":");
    text.append(quote(message).as_str());
    text.append("}");
    text.as_str().as_bytes_vec()
}

} // verus!
