//! Classes of characters.

use vstd::prelude::*;

verus! {

/// What `char::is_whitespace` returns for a character outside ASCII.
pub uninterp spec fn unicode_whitespace(c: char) -> bool;

/// What `char::is_numeric` returns for a character outside ASCII.
pub uninterp spec fn unicode_numeric(c: char) -> bool;

/// The character is in the ASCII range.
pub open spec fn is_ascii(c: char) -> bool {
    c <= '\u{7f}'
}

/// White space: within ASCII the space and the characters U+0009 to U+000D,
/// outside ASCII whatever Unicode gives the property White_Space.
pub open spec fn whitespace(c: char) -> bool {
    if is_ascii(c) {
        c == ' ' || ('\u{9}' <= c && c <= '\u{d}')
    } else {
        unicode_whitespace(c)
    }
}

/// Numerals: within ASCII the ten digits, outside ASCII whatever Unicode
/// puts into one of its general categories for numbers.
pub open spec fn numeric(c: char) -> bool {
    if is_ascii(c) {
        '0' <= c && c <= '9'
    } else {
        unicode_numeric(c)
    }
}

/// The punctuation that ends a name.
pub open spec fn special(c: char) -> bool {
    c == '.' || c == '/' || c == '(' || c == ')' || c == '[' || c == ']' || c == '{' || c == '}'
        || c == ',' || c == ';' || c == ':' || c == '%'
}

/// Calls `char::is_whitespace`. Within ASCII the result is stated: true for
/// the space and for U+0009 to U+000D. Outside ASCII it is only named.
#[verifier::external_body]
fn std_is_whitespace(c: char) -> (r: bool)
    ensures
        !is_ascii(c) ==> r == unicode_whitespace(c),
        is_ascii(c) ==> r == (c == ' ' || ('\u{9}' <= c && c <= '\u{d}')),
{
    c.is_whitespace()
}

/// Calls `char::is_numeric`. Within ASCII the result is stated: true for the
/// digits `0` to `9`. Outside ASCII it is only named.
#[verifier::external_body]
fn std_is_numeric(c: char) -> (r: bool)
    ensures
        !is_ascii(c) ==> r == unicode_numeric(c),
        is_ascii(c) ==> r == ('0' <= c && c <= '9'),
{
    c.is_numeric()
}

/// Whether the character is white space.
pub fn is_whitespace(c: char) -> (r: bool)
    ensures
        r == whitespace(c),
{
    std_is_whitespace(c)
}

/// Whether the character is a numeral.
pub fn is_numeric(c: char) -> (r: bool)
    ensures
        r == numeric(c),
{
    std_is_numeric(c)
}

/// Whether the character is one of the twelve that end a name:
/// `. / ( ) [ ] { } , ; : %`.
pub fn is_special(c: char) -> (r: bool)
    ensures
        r == special(c),
{
    c == '.' || c == '/' || c == '(' || c == ')' || c == '[' || c == ']' || c == '{' || c == '}'
        || c == ',' || c == ';' || c == ':' || c == '%'
}

} // verus!
