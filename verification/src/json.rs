//! JSON text of the values the pipeline writes into document metadata, in
//! the compact form: no whitespace, fields in declaration order, strings
//! escaped as `serde_json` escapes them.
use crate::text::{append_str, digit_char};
use vstd::prelude::*;

verus! {

/// The lowercase hexadecimal digit of `n < 16`.
pub open spec fn hex_digit(n: nat) -> char {
    if n < 10 {
        digit_char(n)
    } else {
        ((n - 10 + 97) as u8) as char
    }
}

/// The escape of one character inside a JSON string.
pub open spec fn json_escape_char(c: char) -> Seq<char> {
    if c == '"' {
        seq!['\\', '"']
    } else if c == '\\' {
        seq!['\\', '\\']
    } else if c == '\u{8}' {
        seq!['\\', 'b']
    } else if c == '\u{C}' {
        seq!['\\', 'f']
    } else if c == '\n' {
        seq!['\\', 'n']
    } else if c == '\r' {
        seq!['\\', 'r']
    } else if c == '\t' {
        seq!['\\', 't']
    } else if (c as u32) < 0x20 {
        seq!['\\', 'u', '0', '0', hex_digit((c as u32 / 16) as nat), hex_digit((c as u32 % 16) as nat)]
    } else {
        seq![c]
    }
}

/// The escaped characters of a string, without the quotes.
pub open spec fn json_escape(s: Seq<char>) -> Seq<char>
    decreases s.len(),
{
    if s.len() == 0 {
        Seq::empty()
    } else {
        json_escape(s.drop_last()) + json_escape_char(s.last())
    }
}

/// A JSON string literal.
pub open spec fn json_string(s: Seq<char>) -> Seq<char> {
    seq!['"'] + json_escape(s) + seq!['"']
}

/// `serde_json::to_string` on a `str`: the JSON string literal of `s`.
/// serde_json writes a quote, then the characters as
/// `format_escaped_str_contents` escapes them (`\"`, `\\`, `\b`, `\t`,
/// `\n`, `\f`, `\r`, and `\u00` with two lowercase hex digits for the other
/// characters below U+0020; every other character as it is), then a quote.
/// Writing a `str` into its byte buffer does not fail.
#[verifier::external_body]
fn json_string_literal(s: &str) -> (r: String)
    ensures
        r@ == json_string(s@),
{
    match serde_json::to_string(s) {
        Ok(text) => text,
        Err(_) => String::new(),
    }
}

/// Appends `s` as a JSON string literal.
pub fn push_json_string(out: &mut String, s: &str)
    ensures
        final(out)@ == old(out)@ + json_string(s@),
{
    let literal = json_string_literal(s);
    append_str(out, literal.as_str());
}

} // verus!
