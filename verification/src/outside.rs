//! The calls that the library makes into other crates. Each contract here is
//! believed, not proved: it says what the crate's own source shows.

use vstd::prelude::*;
use vstd::string::StringSliceAdditionalSpecFns;
use crate::text::{decimal, digit_char};

verus! {

/// The standard base64 encoding, with padding, of the UTF-8 bytes of a text.
pub uninterp spec fn base64_standard(text: Seq<char>) -> Seq<char>;

/// The longest text, in bytes, whose base64 encoding is asked for. The
/// encoder fails on lengths in the top quarter of `usize`.
pub open spec fn base64_input_limit() -> nat {
    (usize::MAX / 2) as nat
}

/// `base64::Engine::encode` of `base64::engine::general_purpose::STANDARD`:
/// the result is the standard encoding of the bytes of `text`. The encoder
/// panics where the encoded length does not fit in `usize`, which the bound
/// on the input rules out.
#[verifier::external_body]
pub(crate) fn encode_base64(text: &str) -> (r: String)
    requires
        text.spec_bytes().len() <= base64_input_limit(),
    ensures
        r@ == base64_standard(text@),
{
    base64::Engine::encode(&base64::engine::general_purpose::STANDARD, text)
}

/// Whether a byte is written as it is in a percent-encoded text: an ASCII
/// letter or digit, or one of `-`, `.`, `_`, `~`.
pub open spec fn is_unreserved(b: u8) -> bool {
    ||| 0x30 <= b <= 0x39
    ||| 0x41 <= b <= 0x5A
    ||| 0x61 <= b <= 0x7A
    ||| b == 0x2D
    ||| b == 0x2E
    ||| b == 0x5F
    ||| b == 0x7E
}

/// The upper-case hexadecimal digit for `d`.
pub open spec fn hex_digit(d: nat) -> char {
    if d < 10 {
        digit_char(d)
    } else if d == 10 {
        'A'
    } else if d == 11 {
        'B'
    } else if d == 12 {
        'C'
    } else if d == 13 {
        'D'
    } else if d == 14 {
        'E'
    } else {
        'F'
    }
}

/// How one byte is written in a percent-encoded text.
pub open spec fn percent_encoded_byte(b: u8) -> Seq<char> {
    if is_unreserved(b) {
        seq![b as char]
    } else {
        seq!['%', hex_digit((b / 16) as nat), hex_digit((b % 16) as nat)]
    }
}

/// The percent-encoding of a sequence of bytes.
pub open spec fn percent_encoded(bytes: Seq<u8>) -> Seq<char>
    decreases bytes.len(),
{
    if bytes.len() == 0 {
        Seq::empty()
    } else {
        percent_encoded(bytes.drop_last()) + percent_encoded_byte(bytes.last())
    }
}

/// `urlencoding::encode`: every byte of the UTF-8 form of `text` is
/// percent-encoded, but for ASCII letters, digits and `-`, `.`, `_`, `~`.
#[verifier::external_body]
pub(crate) fn percent_encode(text: &str) -> (r: String)
    ensures
        r@ == percent_encoded(text.spec_bytes()),
{
    urlencoding::encode(text).into_owned()
}

/// The standard reason phrase of an HTTP status code, or the text that
/// stands for a code without one.
pub uninterp spec fn reason_phrase(code: u16) -> Seq<char>;

/// `reqwest::StatusCode::from_u16` and the `Display` of the status: a code
/// from 100 to 999 is shown as its number, a space and its reason phrase;
/// any other code is no status.
#[verifier::external_body]
pub(crate) fn status_text(code: u16) -> (r: Option<String>)
    ensures
        r is Some <==> 100 <= code <= 999,
        r matches Some(text) ==> text@ == decimal(code as nat) + seq![' '] + reason_phrase(code),
{
    match reqwest::StatusCode::from_u16(code) {
        Ok(status) => Some(status.to_string()),
        Err(_) => None,
    }
}

/// `serde_json::Value`: a JSON value, carried through unread.
#[verifier::external_type_specification]
#[verifier::external_body]
pub struct ExJsonValue(serde_json::Value);

/// `serde_json::Map`: a JSON object, known by its fields only.
#[verifier::external_type_specification]
#[verifier::external_body]
#[verifier::reject_recursive_types(K)]
#[verifier::reject_recursive_types(V)]
pub struct ExJsonObject<K, V>(serde_json::Map<K, V>);

/// The fields of a JSON object whose values are strings, by key.
pub uninterp spec fn string_fields(object: serde_json::Map<String, serde_json::Value>) -> Map<Seq<char>, Seq<char>>;

/// The keys of all the fields of a JSON object, whatever their values.
pub uninterp spec fn field_names(object: serde_json::Map<String, serde_json::Value>) -> Set<Seq<char>>;

/// No keys at all.
pub open spec fn no_names() -> Set<Seq<char>> {
    Set::empty()
}

/// No fields at all.
pub open spec fn no_fields() -> Map<Seq<char>, Seq<char>> {
    Map::empty()
}

/// `serde_json::Map::new`: an object without fields.
#[verifier::external_body]
pub(crate) fn empty_object() -> (r: serde_json::Map<String, serde_json::Value>)
    ensures
        string_fields(r) == no_fields(),
        field_names(r) == no_names(),
{
    serde_json::Map::new()
}

/// `serde_json::Map::insert` with a `serde_json::Value::String`: the object
/// holds `value` under `key` afterwards, in place of what it held there, and
/// its other fields as before; `key` is one of its keys, with those it had.
#[verifier::external_body]
pub(crate) fn insert_string(object: &mut serde_json::Map<String, serde_json::Value>, key: &str, value: String)
    ensures
        string_fields(*final(object)) == string_fields(*old(object)).insert(key@, value@),
        field_names(*final(object)) == field_names(*old(object)).insert(key@),
{
    object.insert(key.to_string(), serde_json::Value::String(value));
}

} // verus!
