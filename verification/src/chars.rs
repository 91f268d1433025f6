//! Character classes of the markup grammar.

use vstd::prelude::*;

verus! {

/// A character that ends a line: line feed or carriage return.
pub open spec fn is_line_break(c: char) -> bool {
    c == '\n' || c == '\r'
}

/// A space or a tab, the blanks that separate a marker from what follows it.
pub open spec fn is_blank(c: char) -> bool {
    c == ' ' || c == '\t'
}

/// A decimal digit.
pub open spec fn is_digit(c: char) -> bool {
    '0' <= c <= '9'
}

/// An ASCII letter.
pub open spec fn is_letter(c: char) -> bool {
    'a' <= c <= 'z' || 'A' <= c <= 'Z'
}

/// An ASCII punctuation character: the characters a backslash can escape.
pub open spec fn is_punctuation(c: char) -> bool {
    '!' <= c <= '/' || ':' <= c <= '@' || '[' <= c <= '`' || '{' <= c <= '~'
}

/// A character with the Unicode property White_Space: what trimming removes.
pub open spec fn is_space(c: char) -> bool {
    '\u{9}' <= c <= '\u{d}' || c == ' ' || c == '\u{85}' || c == '\u{a0}' || c == '\u{1680}'
        || '\u{2000}' <= c <= '\u{200a}' || c == '\u{2028}' || c == '\u{2029}' || c
        == '\u{202f}' || c == '\u{205f}' || c == '\u{3000}'
}

/// A character that may stand in the language tag of a code fence.
pub open spec fn is_tag_char(c: char) -> bool {
    is_letter(c) || is_digit(c) || c == '_' || c == '-' || c == '+' || c == '.' || c == '#'
}

/// A character that opens an inline construct and so never belongs to a run
/// of plain text.
pub open spec fn is_marker(c: char) -> bool {
    c == '*' || c == '_' || c == '~' || c == '[' || c == '\\' || c == '`'
}

/// A character that may stand unescaped in the target of a link or an image:
/// anything but the closing parenthesis, white space, a double quote and the
/// angle brackets.
pub open spec fn is_url_char(c: char) -> bool {
    c != ')' && !is_space(c) && c != '"' && c != '<' && c != '>'
}

pub fn line_break(c: char) -> (b: bool)
    ensures
        b == is_line_break(c),
{
    c == '\n' || c == '\r'
}

pub fn blank(c: char) -> (b: bool)
    ensures
        b == is_blank(c),
{
    c == ' ' || c == '\t'
}

pub fn digit(c: char) -> (b: bool)
    ensures
        b == is_digit(c),
{
    '0' <= c && c <= '9'
}

pub fn punctuation(c: char) -> (b: bool)
    ensures
        b == is_punctuation(c),
{
    ('!' <= c && c <= '/') || (':' <= c && c <= '@') || ('[' <= c && c <= '`') || ('{' <= c && c
        <= '~')
}

pub fn space(c: char) -> (b: bool)
    ensures
        b == is_space(c),
{
    ('\u{9}' <= c && c <= '\u{d}') || c == ' ' || c == '\u{85}' || c == '\u{a0}' || c
        == '\u{1680}' || ('\u{2000}' <= c && c <= '\u{200a}') || c == '\u{2028}' || c
        == '\u{2029}' || c == '\u{202f}' || c == '\u{205f}' || c == '\u{3000}'
}

pub fn tag_char(c: char) -> (b: bool)
    ensures
        b == is_tag_char(c),
{
    ('a' <= c && c <= 'z') || ('A' <= c && c <= 'Z') || ('0' <= c && c <= '9') || c == '_' || c
        == '-' || c == '+' || c == '.' || c == '#'
}

pub fn marker(c: char) -> (b: bool)
    ensures
        b == is_marker(c),
{
    c == '*' || c == '_' || c == '~' || c == '[' || c == '\\' || c == '`'
}

pub fn url_char(c: char) -> (b: bool)
    ensures
        b == is_url_char(c),
{
    c != ')' && !space(c) && c != '"' && c != '<' && c != '>'
}

} // verus!
