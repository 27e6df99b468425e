//! JSON payloads of the protocol frames: `{"text": ...}` for PARTIAL and
//! COMMIT, `{"message": ...}` for ERROR, the READY greeting and the empty
//! object `{}`.

use vstd::prelude::*;

use crate::endpoint::opt_view;
use vstd::string::{StringExecFns, StringSliceAdditionalSpecFns};
use vstd::utf8::encode_utf8;

verus! {

/// Lower-case hexadecimal digit of `d` (0..16).
pub open spec fn hex_lower(d: nat) -> char {
    if d < 10 {
        (48 + d) as char
    } else {
        (87 + d) as char
    }
}

/// How `serde_json` writes one character inside a string literal:
/// quote, backslash and control characters are escaped, everything else
/// (non-ASCII included) is written as is.
pub open spec fn json_escape_char(c: char) -> Seq<char> {
    let u = c as u32;
    if c == '"' {
        seq!['\\', '"']
    } else if c == '\\' {
        seq!['\\', '\\']
    } else if u == 0x08 {
        seq!['\\', 'b']
    } else if u == 0x09 {
        seq!['\\', 't']
    } else if u == 0x0A {
        seq!['\\', 'n']
    } else if u == 0x0C {
        seq!['\\', 'f']
    } else if u == 0x0D {
        seq!['\\', 'r']
    } else if u < 0x20 {
        seq!['\\', 'u', '0', '0', hex_lower((u / 16) as nat), hex_lower((u % 16) as nat)]
    } else {
        seq![c]
    }
}

/// The escaped characters of `s`, in order.
pub open spec fn json_escape(s: Seq<char>) -> Seq<char>
    decreases s.len(),
{
    if s.len() == 0 {
        Seq::empty()
    } else {
        json_escape(s.drop_last()) + json_escape_char(s.last())
    }
}

/// The JSON string literal of `s`.
pub open spec fn json_quoted(s: Seq<char>) -> Seq<char> {
    seq!['"'] + json_escape(s) + seq!['"']
}

/// The value of the member `key` of the JSON document in `bytes`, when
/// the bytes parse as JSON, the document is an object, and that member is
/// a string.
pub uninterp spec fn json_str_member(bytes: Seq<u8>, key: Seq<char>) -> Option<Seq<char>>;

/// The `text` member, which PARTIAL and COMMIT payloads carry.
pub open spec fn json_text_member(bytes: Seq<u8>) -> Option<Seq<char>> {
    json_str_member(bytes, "text"@)
}

/// `serde_json::to_string` on a `str`: the JSON string literal of `s`, as
/// written by `format_escaped_str` (the serialisation of a `str` cannot
/// fail; the empty string stands for the error arm).
#[verifier::external_body]
fn json_quote(s: &str) -> (q: String)
    ensures
        q@ == json_quoted(s@),
{
    serde_json::to_string(s).unwrap_or_default()
}

/// `serde_json::from_slice::<serde_json::Value>`, then the member `key`
/// read with `Value::get` and `Value::as_str`. The result is the named
/// `json_str_member` of the bytes and the key; in particular the parser
/// reads the object `{<key>:<literal>}` written with the escapes of
/// `format_escaped_str` back to the text of the literal.
#[verifier::external_body]
fn json_str_member_of(bytes: &[u8], key: &str) -> (t: Option<String>)
    ensures
        opt_view(t) == json_str_member(bytes@, key@),
        forall|s: Seq<char>|
            bytes@ == #[trigger] encode_utf8(single_member_object(key@, s)) ==> opt_view(t)
                == Some(s),
{
    match serde_json::from_slice::<serde_json::Value>(bytes) {
        Ok(v) => v.get(key).and_then(|m| m.as_str()).map(|m| m.to_owned()),
        Err(_) => None,
    }
}

/// The UTF-8 bytes of `s`.
pub fn utf8_bytes(s: &str) -> (b: Vec<u8>)
    ensures
        b@ == encode_utf8(s@),
{
    let bytes = s.as_bytes();
    let mut v: Vec<u8> = Vec::new();
    let mut i: usize = 0;
    while i < bytes.len()
        invariant
            i <= bytes@.len(),
            bytes@ == s.spec_bytes(),
            v@ == bytes@.take(i as int),
        decreases bytes@.len() - i,
    {
        v.push(bytes[i]);
        i = i + 1;
        assert(bytes@.take(i as int) == bytes@.take((i - 1) as int).push(bytes@[i - 1]));
    }
    assert(bytes@.take(bytes@.len() as int) == bytes@);
    v
}

/// The JSON object with a single string member `key`.
pub open spec fn single_member_object(key: Seq<char>, value: Seq<char>) -> Seq<char> {
    seq!['{'] + json_quoted(key) + seq![':'] + json_quoted(value) + seq!['}']
}

/// The JSON object with the single string member `key`: `value`.
pub fn object_with(key: &str, value: &str) -> (s: String)
    ensures
        s@ == single_member_object(key@, value@),
{
    let mut s = String::from_str("{");
    s.append(json_quote(key).as_str());
    s.append(":");
    s.append(json_quote(value).as_str());
    s.append("}");
    proof {
        reveal_strlit("{");
        reveal_strlit(":");
        reveal_strlit("}");
    }
    assert(s@ =~= single_member_object(key@, value@));
    s
}

/// Payload of PARTIAL and COMMIT frames: `{"text":<text>}`.
pub fn text_payload(text: &str) -> (p: Vec<u8>)
    ensures
        p@ == encode_utf8(single_member_object("text"@, text@)),
{
    let s = object_with("text", text);
    utf8_bytes(s.as_str())
}

/// Payload of ERROR frames: `{"message":<message>}`.
pub fn message_payload(message: &str) -> (p: Vec<u8>)
    ensures
        p@ == encode_utf8(single_member_object("message"@, message@)),
{
    let s = object_with("message", message);
    utf8_bytes(s.as_str())
}

/// The `text` member of a payload, when it has one. A payload written by
/// `text_payload` gives its text back.
pub fn payload_text_member(payload: &[u8]) -> (t: Option<String>)
    ensures
        opt_view(t) == json_text_member(payload@),
        forall|s: Seq<char>|
            payload@ == #[trigger] encode_utf8(single_member_object("text"@, s)) ==> opt_view(t)
                == Some(s),
{
    json_str_member_of(payload, "text")
}

/// The text carried by a PARTIAL or COMMIT payload; empty when the
/// payload has no string member `text`. A payload written by
/// `text_payload` gives its text back.
pub fn payload_text(payload: &[u8]) -> (t: String)
    ensures
        t@ == match json_text_member(payload@) {
            Some(s) => s,
            None => Seq::<char>::empty(),
        },
        forall|s: Seq<char>|
            payload@ == #[trigger] encode_utf8(single_member_object("text"@, s)) ==> t@ == s,
{
    match json_str_member_of(payload, "text") {
        Some(t) => t,
        None => String::new(),
    }
}

} // verus!
