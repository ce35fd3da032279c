//! Text made fit for a URL or for a JSON document.

use vstd::prelude::*;
use crate::platform::optional_text;

verus! {

/// The bytes that stand for themselves in a URL: letters, digits, and the
/// four marks `-`, `.`, `_` and `~`.
pub open spec fn is_unreserved(b: u8) -> bool {
    ||| 0x30 <= b <= 0x39
    ||| 0x41 <= b <= 0x5a
    ||| 0x61 <= b <= 0x7a
    ||| b == 0x2d
    ||| b == 0x2e
    ||| b == 0x5f
    ||| b == 0x7e
}

/// The hexadecimal digit of a number below sixteen, letters in upper case.
pub open spec fn hex_digit(n: int) -> u8 {
    if n < 10 {
        (0x30 + n) as u8
    } else {
        (0x41 + n - 10) as u8
    }
}

/// One byte as it stands in a URL: itself, or a percent sign and its two
/// hexadecimal digits.
pub open spec fn escaped_byte(b: u8) -> Seq<u8> {
    if is_unreserved(b) {
        seq![b]
    } else {
        seq![0x25u8, hex_digit(b as int / 16), hex_digit(b as int % 16)]
    }
}

/// Bytes as they stand in a URL, each escaped by itself.
pub open spec fn percent_encoded(bytes: Seq<u8>) -> Seq<u8>
    decreases bytes.len(),
{
    if bytes.len() == 0 {
        Seq::<u8>::empty()
    } else {
        percent_encoded(bytes.drop_last()) + escaped_byte(bytes.last())
    }
}

/// The characters that bytes below 128 stand for.
pub open spec fn ascii_text(bytes: Seq<u8>) -> Seq<char> {
    bytes.map_values(|b: u8| b as char)
}

/// A text as it stands in a URL: its UTF-8 bytes, each escaped by itself.
pub open spec fn url_encoded(text: Seq<char>) -> Seq<char> {
    ascii_text(percent_encoded(vstd::utf8::encode_utf8(text)))
}

/// The hexadecimal digit of a number below sixteen, letters in lower case.
pub open spec fn lower_hex_digit(n: int) -> char {
    if n < 10 {
        ('0' as int + n) as char
    } else {
        ('a' as int + n - 10) as char
    }
}

/// One character as it stands in a string of a JSON document. The quote
/// and the backslash stand after a backslash; backspace, tab, line feed,
/// form feed and carriage return stand as a backslash and a letter; every
/// other control character below the space stands as `\u00` and its two
/// hexadecimal digits; every other character stands for itself.
pub open spec fn json_escaped(c: char) -> Seq<char> {
    if c == '"' {
        seq!['\\', '"']
    } else if c == '\\' {
        seq!['\\', '\\']
    } else if c == '\u{8}' {
        seq!['\\', 'b']
    } else if c == '\u{9}' {
        seq!['\\', 't']
    } else if c == '\u{a}' {
        seq!['\\', 'n']
    } else if c == '\u{c}' {
        seq!['\\', 'f']
    } else if c == '\u{d}' {
        seq!['\\', 'r']
    } else if c <= '\u{1f}' {
        seq![
            '\\',
            'u',
            '0',
            '0',
            lower_hex_digit(c as int / 16),
            lower_hex_digit(c as int % 16),
        ]
    } else {
        seq![c]
    }
}

/// A text as it stands between the quotes of a string of a JSON document:
/// each character escaped by itself.
pub open spec fn json_escaped_text(text: Seq<char>) -> Seq<char>
    decreases text.len(),
{
    if text.len() == 0 {
        text
    } else {
        json_escaped_text(text.drop_last()) + json_escaped(text.last())
    }
}

/// A text as a string of a JSON document, quotes included.
pub open spec fn json_string(text: Seq<char>) -> Seq<char> {
    seq!['"'] + json_escaped_text(text) + seq!['"']
}

/// Calls `urlencoding::encode`, which is documented to percent-encode every
/// byte of the text's UTF-8 form except letters, digits and `-`, `_`, `.`,
/// `~`; its source writes the two digits in upper case.
#[verifier::external_body]
pub(crate) fn url_encode(text: &str) -> (r: String)
    ensures
        r@ == url_encoded(text@),
{
    urlencoding::encode(text).into_owned()
}

/// Calls `serde_json::to_string` on a string slice. There always is a
/// result: the call is documented to fail only where a type refuses to be
/// written or a map has keys that are no strings, and in its source a
/// string slice is written into a vector of bytes, which takes every
/// write. The result is the text between quotes, escaped as the table in
/// the source says: it names the quote, the backslash and the bytes below
/// the space, writes five of these as a letter and the others with four
/// hexadecimal digits in lower case, and leaves every other byte as it is.
#[verifier::external_body]
pub(crate) fn json_quote(text: &str) -> (r: Option<String>)
    ensures
        r is Some,
        optional_text(r) == Some(json_string(text@)),
{
    serde_json::to_string(text).ok()
}

} // verus!
