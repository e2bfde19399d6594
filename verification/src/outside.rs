//! The calls this library makes into outside crates, each behind one trusted wrapper.

use vstd::prelude::*;

verus! {

/// A hex digit as `hex::encode` writes it (lower case).
pub open spec fn hex_digit(n: u8) -> char {
    if n < 10 {
        (('0' as u32) + (n as u32)) as char
    } else {
        (('a' as u32) + (n as u32) - 10) as char
    }
}

/// Lower-case hex of a byte string: two digits per byte, high nibble first.
pub open spec fn hex_lower(data: Seq<u8>) -> Seq<char> {
    Seq::new(
        (2 * data.len()) as nat,
        |i: int|
            if i % 2 == 0 {
                hex_digit(data[i / 2] / 16)
            } else {
                hex_digit(data[i / 2] % 16)
            },
    )
}

/// Shape of `Uuid::to_string`: 36 chars, `-` at 8, 13, 18, 23, lower-case hex elsewhere.
pub open spec fn uuid_shape(s: Seq<char>) -> bool {
    &&& s.len() == 36
    &&& forall|i: int|
        0 <= i < 36 ==> if i == 8 || i == 13 || i == 18 || i == 23 {
            s[i] == '-'
        } else {
            ('0' <= s[i] && s[i] <= '9') || ('a' <= s[i] && s[i] <= 'f')
        }
}

/// SHA-256 digest of a byte string.
pub uninterp spec fn sha256_spec(data: Seq<u8>) -> Seq<u8>;

/// One char as `serde_json` writes it inside a JSON string: `"` and `\` behind a backslash,
/// backspace, tab, line feed, form feed and carriage return as `\b \t \n \f \r`, other chars
/// below U+0020 as `\u00` and two lower-case hex digits, everything else as it is.
pub open spec fn json_char(c: char) -> Seq<char> {
    let u = c as u32;
    if c == '"' {
        seq!['\\', '"']
    } else if c == '\\' {
        seq!['\\', '\\']
    } else if u == 0x08 {
        seq!['\\', 'b']
    } else if u == 0x09 {
        seq!['\\', 't']
    } else if u == 0x0A {
        seq!['\\', 'n']
    } else if u == 0x0C {
        seq!['\\', 'f']
    } else if u == 0x0D {
        seq!['\\', 'r']
    } else if u < 0x20 {
        seq!['\\', 'u', '0', '0', hex_digit((u / 16) as u8), hex_digit((u % 16) as u8)]
    } else {
        seq![c]
    }
}

/// The chars of a string, each as `serde_json` writes it inside a JSON string.
pub open spec fn json_chars(s: Seq<char>) -> Seq<char>
    decreases s.len(),
{
    if s.len() == 0 {
        Seq::empty()
    } else {
        json_chars(s.drop_last()) + json_char(s.last())
    }
}

/// JSON text of a string value, as `serde_json::to_string` writes it: the escaped chars between
/// double quotes.
pub open spec fn json_string_literal(s: Seq<char>) -> Seq<char> {
    seq!['"'] + json_chars(s) + seq!['"']
}

/// What `serde_json` parses from a text: `Some` of the array items (each `Some` when it is a
/// JSON string, with its content) when the text is a JSON array, else `None`.
pub uninterp spec fn json_array_items(text: Seq<char>) -> Option<Seq<Option<Seq<char>>>>;

/// Text of `format!("{:?}", o)` for an optional string.
pub uninterp spec fn debug_opt_string(o: Option<Seq<char>>) -> Seq<char>;

/// Calls `uuid::Uuid::new_v4()` and formats it with `to_string()` (hyphenated, lower case).
/// The value is random; only its shape is stated.
#[verifier::external_body]
pub(crate) fn new_uuid() -> (r: String)
    ensures
        uuid_shape(r@),
{
    uuid::Uuid::new_v4().to_string()
}

/// Calls `chrono::Utc::now()` and reads it with `timestamp_micros()`.
/// The clock is read; nothing is stated of the value.
#[verifier::external_body]
pub(crate) fn now_micros() -> (r: i64) {
    chrono::Utc::now().timestamp_micros()
}

/// Calls `sha2::Sha256::digest` on `data`; the digest is 32 bytes.
#[verifier::external_body]
pub(crate) fn sha256_digest(data: &[u8]) -> (r: Vec<u8>)
    ensures
        r@ == sha256_spec(data@),
        r@.len() == 32,
{
    <sha2::Sha256 as sha2::Digest>::digest(data).to_vec()
}

/// Calls `hex::encode`: lower-case hex, two digits per byte.
#[verifier::external_body]
pub(crate) fn hex_encode(data: &[u8]) -> (r: String)
    ensures
        r@ == hex_lower(data@),
{
    hex::encode(data)
}

/// Fills `n` bytes from `rand::thread_rng()` with `RngCore::fill_bytes`.
/// The bytes are random; only their number is stated.
#[verifier::external_body]
pub(crate) fn random_bytes(n: usize) -> (r: Vec<u8>)
    ensures
        r@.len() == n,
{
    let mut bytes = vec![0u8; n];
    rand::RngCore::fill_bytes(&mut rand::thread_rng(), &mut bytes);
    bytes
}

/// Calls `serde_json::to_string` on a string value (which cannot fail for `str`); the text is
/// `json_string_literal`, as `format_escaped_str` and its `ESCAPE` table write it.
#[verifier::external_body]
pub(crate) fn json_quote(s: &str) -> (r: String)
    ensures
        r@ == json_string_literal(s@),
{
    serde_json::to_string(s).unwrap_or_default()
}

/// Calls `serde_json::from_str::<serde_json::Value>`; an array is handed back item by item
/// (`Value::as_str` of each item), anything else, or a parse error, as `None`.
#[verifier::external_body]
pub(crate) fn json_parse_array(text: &str) -> (r: Option<Vec<Option<String>>>)
    ensures
        r.deep_view() == json_array_items(text@),
{
    match serde_json::from_str::<serde_json::Value>(text) {
        Ok(serde_json::Value::Array(items)) => Some(
            items.iter().map(|v| v.as_str().map(|s| s.to_string())).collect(),
        ),
        _ => None,
    }
}

/// Calls `format!("{:?}", o)` (std `Debug`) on an optional string.
#[verifier::external_body]
pub(crate) fn debug_opt(o: &Option<String>) -> (r: String)
    ensures
        r@ == debug_opt_string(o.deep_view()),
{
    format!("{:?}", o)
}

} // verus!
