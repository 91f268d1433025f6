//! Runs of characters: the repetitions of the grammar that build no nodes.

use vstd::prelude::*;
use crate::chars::{
    blank, digit, is_blank, is_digit, is_line_break, is_marker, is_space, is_tag_char,
    is_url_char, line_break, marker, space, tag_char, url_char,
};

verus! {

/// What one step of a run may take.
#[derive(Clone, Copy, Debug)]
pub enum Class {
    /// The given character.
    Repeat(char),
    /// A space or a tab.
    Blank,
    /// A decimal digit.
    Digit,
    /// A character of a language tag.
    Tag,
    /// Any character that does not end the line.
    Line,
    /// A character of plain text: on the line, no marker, and no `!` that opens an image.
    Plain,
    /// Any character on the line but the given one.
    Until(char),
    /// Any character on the line that does not start a pair of the given one.
    UntilPair(char),
    /// Any character on the line but `*` and `_`.
    Emphasis,
    /// A character of a link text or an image description: `\]`, or any
    /// character on the line but `]`.
    Label,
    /// A character of a link or image target: `\)`, or a character that may
    /// stand there unescaped.
    Target,
    /// Any character at which no closing fence line starts.
    Body,
    /// A white space character.
    Space,
    /// Any character but white space.
    Word,
}

/// `s` holds the character `c` at index `i`.
pub open spec fn ahead(s: Seq<char>, i: int, c: char) -> bool {
    0 <= i < s.len() && s[i] == c
}

/// The length of the line break at index `i`: 2 for a carriage return and a
/// line feed, 1 for either alone, 0 where no line break stands.
pub open spec fn break_len(s: Seq<char>, i: int) -> int {
    if ahead(s, i, '\r') && ahead(s, i + 1, '\n') {
        2
    } else if ahead(s, i, '\n') || ahead(s, i, '\r') {
        1
    } else {
        0
    }
}

/// Three backticks stand at index `i`.
pub open spec fn fence_at(s: Seq<char>, i: int) -> bool {
    ahead(s, i, '`') && ahead(s, i + 1, '`') && ahead(s, i + 2, '`')
}

/// The number of characters that one step of `class` takes at index `i`;
/// 0 where the run ends.
pub open spec fn step(class: Class, s: Seq<char>, i: int) -> int {
    if !(0 <= i < s.len()) {
        0
    } else {
        match class {
            Class::Repeat(c) => if s[i] == c { 1 } else { 0 },
            Class::Blank => if is_blank(s[i]) { 1 } else { 0 },
            Class::Digit => if is_digit(s[i]) { 1 } else { 0 },
            Class::Tag => if is_tag_char(s[i]) { 1 } else { 0 },
            Class::Line => if is_line_break(s[i]) { 0 } else { 1 },
            Class::Plain => if is_line_break(s[i]) || is_marker(s[i]) || (s[i] == '!' && ahead(
                s,
                i + 1,
                '[',
            )) { 0 } else { 1 },
            Class::Until(c) => if is_line_break(s[i]) || s[i] == c { 0 } else { 1 },
            Class::UntilPair(c) => if is_line_break(s[i]) || (s[i] == c && ahead(s, i + 1, c)) {
                0
            } else {
                1
            },
            Class::Emphasis => if is_line_break(s[i]) || s[i] == '*' || s[i] == '_' { 0 } else { 1 },
            Class::Label => if s[i] == '\\' && ahead(s, i + 1, ']') {
                2
            } else if is_line_break(s[i]) || s[i] == ']' {
                0
            } else {
                1
            },
            Class::Target => if s[i] == '\\' && ahead(s, i + 1, ')') {
                2
            } else if is_url_char(s[i]) {
                1
            } else {
                0
            },
            Class::Body => if break_len(s, i) > 0 && fence_at(s, i + break_len(s, i)) {
                0
            } else {
                1
            },
            Class::Space => if is_space(s[i]) { 1 } else { 0 },
            Class::Word => if is_space(s[i]) { 0 } else { 1 },
        }
    }
}

/// The end of the longest run of `class` that starts at `pos`.
pub open spec fn run_end(class: Class, s: Seq<char>, pos: int) -> int
    decreases s.len() - pos,
{
    let k = step(class, s, pos);
    if k > 0 {
        run_end(class, s, pos + k)
    } else {
        pos
    }
}

/// A run ends between its start and the end of the text.
pub proof fn lemma_run_end_bounds(class: Class, s: Seq<char>, pos: int)
    requires
        0 <= pos <= s.len(),
    ensures
        pos <= run_end(class, s, pos) <= s.len(),
    decreases s.len() - pos,
{
    let k = step(class, s, pos);
    if k > 0 {
        lemma_run_end_bounds(class, s, pos + k);
    }
}

/// A run over characters that each take one step, up to a character that
/// takes none, ends at that character.
pub proof fn lemma_run_stops(class: Class, s: Seq<char>, from: int, to: int)
    requires
        0 <= from <= to <= s.len(),
        forall|i: int| from <= i < to ==> step(class, s, i) == 1,
        step(class, s, to) == 0,
    ensures
        run_end(class, s, from) == to,
    decreases to - from,
{
    if from < to {
        lemma_run_stops(class, s, from + 1, to);
    }
}

/// Whether `src` holds `c` at index `i`.
pub fn found(src: &[char], i: usize, c: char) -> (b: bool)
    ensures
        b == ahead(src@, i as int, c),
        src@.len() <= usize::MAX,
{
    i < src.len() && src[i] == c
}

/// The length of the line break at index `i`.
pub fn break_len_at(src: &[char], i: usize) -> (k: usize)
    ensures
        k == break_len(src@, i as int),
        i + k <= src@.len() || k == 0,
        src@.len() <= usize::MAX,
{
    if i >= src.len() {
        0
    } else if src[i] == '\r' {
        if found(src, i + 1, '\n') {
            2
        } else {
            1
        }
    } else if src[i] == '\n' {
        1
    } else {
        0
    }
}

/// Whether three backticks stand at index `i`.
pub fn is_fence_at(src: &[char], i: usize) -> (b: bool)
    ensures
        b == fence_at(src@, i as int),
        src@.len() <= usize::MAX,
{
    i < src.len() && src.len() - i >= 3 && src[i] == '`' && src[i + 1] == '`' && src[i + 2] == '`'
}

/// The number of characters that one step of `class` takes at index `i`.
pub fn step_at(class: Class, src: &[char], i: usize) -> (k: usize)
    ensures
        k == step(class, src@, i as int),
        k == 0 || i + k <= src@.len(),
        src@.len() <= usize::MAX,
{
    let n: usize = src.len();
    if i >= src.len() {
        return 0;
    }
    let c = src[i];
    let open: bool = match class {
        Class::Repeat(d) => c == d,
        Class::Blank => blank(c),
        Class::Digit => digit(c),
        Class::Tag => tag_char(c),
        Class::Line => !line_break(c),
        Class::Plain => !(line_break(c) || marker(c) || (c == '!' && found(src, i + 1, '['))),
        Class::Until(d) => !(line_break(c) || c == d),
        Class::UntilPair(d) => !(line_break(c) || (c == d && found(src, i + 1, d))),
        Class::Emphasis => !(line_break(c) || c == '*' || c == '_'),
        Class::Label => {
            if c == '\\' && found(src, i + 1, ']') {
                return 2;
            }
            !(line_break(c) || c == ']')
        },
        Class::Target => {
            if c == '\\' && found(src, i + 1, ')') {
                return 2;
            }
            url_char(c)
        },
        Class::Body => {
            let k = break_len_at(src, i);
            !(k > 0 && is_fence_at(src, i + k))
        },
        Class::Space => space(c),
        Class::Word => !space(c),
    };
    if open {
        1
    } else {
        0
    }
}

/// The end of the longest run of `class` that starts at `pos`.
pub fn scan(class: Class, src: &[char], pos: usize) -> (end: usize)
    requires
        pos <= src@.len(),
    ensures
        end == run_end(class, src@, pos as int),
        pos <= end <= src@.len() <= usize::MAX,
{
    let n: usize = src.len();
    let mut i: usize = pos;
    let mut k: usize = step_at(class, src, i);
    while k > 0
        invariant
            n == src@.len(),
            pos <= i <= n,
            k == step(class, src@, i as int),
            k == 0 || i + k <= src@.len(),
            run_end(class, src@, i as int) == run_end(class, src@, pos as int),
        decreases src@.len() - i,
    {
        i += k;
        k = step_at(class, src, i);
    }
    i
}

} // verus!
