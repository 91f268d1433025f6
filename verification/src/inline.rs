//! The inline grammar: what one line of text holds.
//!
//! At each position the constructs are tried in a fixed order: the escape
//! sequence, bold, underline, italic, strikethrough, inline code, the image
//! and the link. Where none of them matches, the text is plain: a run of
//! characters that open nothing, or a single marker that stands for itself.

use vstd::prelude::*;
use crate::chars::{is_line_break, is_punctuation, line_break, punctuation};
use crate::scan::{ahead, found, run_end, scan, Class};
use crate::tree::{agrees, branch, leaf, one, push_node, trees, two, Node, Rule, Tree};

verus! {

/// A backslash and the punctuation character after it.
pub open spec fn escape_at(s: Seq<char>, pos: int) -> Option<(Tree, int)> {
    if ahead(s, pos, '\\') && pos + 1 < s.len() && is_punctuation(s[pos + 1]) {
        Some(
            (
                branch(
                    Rule::EscapeSequence,
                    s,
                    pos,
                    pos + 2,
                    seq![leaf(Rule::Character, s, pos + 1, pos + 2)],
                ),
                pos + 2,
            ),
        )
    } else {
        None
    }
}

/// Text between two pairs of `mark`: the opening pair, a content that is not
/// empty and runs to the first pair of `mark` on the line, and that pair.
pub open spec fn paired_at(s: Seq<char>, pos: int, mark: char, rule: Rule, inner: Rule) -> Option<
    (Tree, int),
> {
    let from = pos + 2;
    let to = run_end(Class::UntilPair(mark), s, from);
    if ahead(s, pos, mark) && ahead(s, pos + 1, mark) && from < to && ahead(s, to, mark) && ahead(
        s,
        to + 1,
        mark,
    ) {
        Some((branch(rule, s, pos, to + 2, seq![leaf(inner, s, from, to)]), to + 2))
    } else {
        None
    }
}

/// `**text**`.
pub open spec fn bold_at(s: Seq<char>, pos: int) -> Option<(Tree, int)> {
    paired_at(s, pos, '*', Rule::BoldFormatting, Rule::BoldContent)
}

/// `__text__`.
pub open spec fn underline_at(s: Seq<char>, pos: int) -> Option<(Tree, int)> {
    paired_at(s, pos, '_', Rule::UnderlineFormatting, Rule::UnderlineContent)
}

/// `~~text~~`.
pub open spec fn strikethrough_at(s: Seq<char>, pos: int) -> Option<(Tree, int)> {
    paired_at(s, pos, '~', Rule::StrikethroughFormatting, Rule::StrikethroughContent)
}

/// `mark`, a content that is not empty and holds neither `*` nor `_`, and `mark` again.
pub open spec fn italic_with(s: Seq<char>, pos: int, mark: char) -> Option<(Tree, int)> {
    let from = pos + 1;
    let to = run_end(Class::Emphasis, s, from);
    if ahead(s, pos, mark) && from < to && ahead(s, to, mark) {
        Some(
            (
                branch(
                    Rule::ItalicFormatting,
                    s,
                    pos,
                    to + 1,
                    seq![leaf(Rule::ItalicContent, s, from, to)],
                ),
                to + 1,
            ),
        )
    } else {
        None
    }
}

/// `*text*` or `_text_`.
pub open spec fn italic_at(s: Seq<char>, pos: int) -> Option<(Tree, int)> {
    if ahead(s, pos, '*') {
        italic_with(s, pos, '*')
    } else {
        italic_with(s, pos, '_')
    }
}

/// Bold, else underline, else italic, else strikethrough.
pub open spec fn formatting_at(s: Seq<char>, pos: int) -> Option<(Tree, int)> {
    if bold_at(s, pos) is Some {
        bold_at(s, pos)
    } else if underline_at(s, pos) is Some {
        underline_at(s, pos)
    } else if italic_at(s, pos) is Some {
        italic_at(s, pos)
    } else {
        strikethrough_at(s, pos)
    }
}

/// A backtick, the text up to the next backtick on the line, and that backtick.
pub open spec fn code_at(s: Seq<char>, pos: int) -> Option<(Tree, int)> {
    let to = run_end(Class::Until('`'), s, pos + 1);
    if ahead(s, pos, '`') && ahead(s, to, '`') {
        Some((leaf(Rule::InlineCode, s, pos, to + 1), to + 1))
    } else {
        None
    }
}

/// `[label](target)` with `[` at `open`, as a node of `rule` that starts at
/// `start`. The label may be empty; the target may not.
pub open spec fn reference_at(
    s: Seq<char>,
    start: int,
    open: int,
    rule: Rule,
    label: Rule,
    target: Rule,
) -> Option<(Tree, int)> {
    let label_end = run_end(Class::Label, s, open + 1);
    let from = label_end + 2;
    let to = run_end(Class::Target, s, from);
    if ahead(s, open, '[') && ahead(s, label_end, ']') && ahead(s, label_end + 1, '(') && from < to
        && ahead(s, to, ')') {
        Some(
            (
                branch(
                    rule,
                    s,
                    start,
                    to + 1,
                    seq![leaf(label, s, open + 1, label_end), leaf(target, s, from, to)],
                ),
                to + 1,
            ),
        )
    } else {
        None
    }
}

/// `[text](url)`.
pub open spec fn link_at(s: Seq<char>, pos: int) -> Option<(Tree, int)> {
    reference_at(s, pos, pos, Rule::Link, Rule::LinkContent, Rule::LinkUrl)
}

/// `![alt](url)`.
pub open spec fn image_at(s: Seq<char>, pos: int) -> Option<(Tree, int)> {
    if ahead(s, pos, '!') {
        reference_at(s, pos, pos + 1, Rule::Image, Rule::ImageAlt, Rule::ImageUrl)
    } else {
        None
    }
}

/// The first construct that matches at `pos`, in the order of precedence.
pub open spec fn construct_at(s: Seq<char>, pos: int) -> Option<(Tree, int)> {
    if escape_at(s, pos) is Some {
        escape_at(s, pos)
    } else if formatting_at(s, pos) is Some {
        formatting_at(s, pos)
    } else if code_at(s, pos) is Some {
        code_at(s, pos)
    } else if image_at(s, pos) is Some {
        image_at(s, pos)
    } else {
        link_at(s, pos)
    }
}

/// The longest run of plain characters at `pos`, if it is not empty.
pub open spec fn plain_at(s: Seq<char>, pos: int) -> Option<(Tree, int)> {
    let to = run_end(Class::Plain, s, pos);
    if pos < to {
        Some((leaf(Rule::PlainText, s, pos, to), to))
    } else {
        None
    }
}

/// One inline element at `pos`: a construct, else a run of plain text, else
/// the single character at `pos` as plain text. Nothing matches at the end of
/// the line.
pub open spec fn inline_at(s: Seq<char>, pos: int) -> Option<(Tree, int)> {
    if !(0 <= pos < s.len()) || is_line_break(s[pos]) {
        None
    } else if construct_at(s, pos) is Some {
        construct_at(s, pos)
    } else if plain_at(s, pos) is Some {
        plain_at(s, pos)
    } else {
        Some((leaf(Rule::PlainText, s, pos, pos + 1), pos + 1))
    }
}

/// The inline elements from `pos` to the end of the line, after those of
/// `acc`, and where they end.
pub open spec fn inlines(s: Seq<char>, pos: int, acc: Seq<Tree>) -> (Seq<Tree>, int)
    decreases s.len() - pos,
{
    match inline_at(s, pos) {
        Some((t, e)) => if pos < e <= s.len() {
            inlines(s, e, acc.push(t))
        } else {
            (acc, pos)
        },
        None => (acc, pos),
    }
}

pub fn parse_escape(src: &[char], pos: usize) -> (r: Option<(Node, usize)>)
    ensures
        agrees(r, escape_at(src@, pos as int)),
        r matches Some((_, e)) ==> pos < e <= src@.len(),
{
    if found(src, pos, '\\') && pos + 1 < src.len() && punctuation(src[pos + 1]) {
        let inner = Node::leaf(Rule::Character, src, pos + 1, pos + 2);
        Some((Node::new(Rule::EscapeSequence, src, pos, pos + 2, one(inner)), pos + 2))
    } else {
        None
    }
}

pub fn parse_paired(src: &[char], pos: usize, mark: char, rule: Rule, inner: Rule) -> (r: Option<
    (Node, usize),
>)
    ensures
        agrees(r, paired_at(src@, pos as int, mark, rule, inner)),
        r matches Some((_, e)) ==> pos < e <= src@.len(),
{
    if !(found(src, pos, mark) && found(src, pos + 1, mark)) {
        return None;
    }
    let from: usize = pos + 2;
    let to: usize = scan(Class::UntilPair(mark), src, from);
    if from < to && found(src, to, mark) && found(src, to + 1, mark) {
        let content = Node::leaf(inner, src, from, to);
        Some((Node::new(rule, src, pos, to + 2, one(content)), to + 2))
    } else {
        None
    }
}

pub fn parse_italic(src: &[char], pos: usize) -> (r: Option<(Node, usize)>)
    ensures
        agrees(r, italic_at(src@, pos as int)),
        r matches Some((_, e)) ==> pos < e <= src@.len(),
{
    if pos >= src.len() {
        return None;
    }
    let mark: char = src[pos];
    if mark != '*' && mark != '_' {
        return None;
    }
    let from: usize = pos + 1;
    let to: usize = scan(Class::Emphasis, src, from);
    if from < to && found(src, to, mark) {
        let content = Node::leaf(Rule::ItalicContent, src, from, to);
        Some((Node::new(Rule::ItalicFormatting, src, pos, to + 1, one(content)), to + 1))
    } else {
        None
    }
}

pub fn parse_formatting(src: &[char], pos: usize) -> (r: Option<(Node, usize)>)
    ensures
        agrees(r, formatting_at(src@, pos as int)),
        r matches Some((_, e)) ==> pos < e <= src@.len(),
{
    let bold = parse_paired(src, pos, '*', Rule::BoldFormatting, Rule::BoldContent);
    if bold.is_some() {
        return bold;
    }
    let underline = parse_paired(src, pos, '_', Rule::UnderlineFormatting, Rule::UnderlineContent);
    if underline.is_some() {
        return underline;
    }
    let italic = parse_italic(src, pos);
    if italic.is_some() {
        return italic;
    }
    parse_paired(src, pos, '~', Rule::StrikethroughFormatting, Rule::StrikethroughContent)
}

pub fn parse_code(src: &[char], pos: usize) -> (r: Option<(Node, usize)>)
    ensures
        agrees(r, code_at(src@, pos as int)),
        r matches Some((_, e)) ==> pos < e <= src@.len(),
{
    if !found(src, pos, '`') {
        return None;
    }
    let to: usize = scan(Class::Until('`'), src, pos + 1);
    if found(src, to, '`') {
        Some((Node::leaf(Rule::InlineCode, src, pos, to + 1), to + 1))
    } else {
        None
    }
}

pub fn parse_reference(
    src: &[char],
    start: usize,
    open: usize,
    rule: Rule,
    label: Rule,
    target: Rule,
) -> (r: Option<(Node, usize)>)
    requires
        start <= open,
    ensures
        agrees(r, reference_at(src@, start as int, open as int, rule, label, target)),
        r matches Some((_, e)) ==> open < e <= src@.len(),
{
    if !found(src, open, '[') {
        return None;
    }
    let label_end: usize = scan(Class::Label, src, open + 1);
    if !(found(src, label_end, ']') && found(src, label_end + 1, '(')) {
        return None;
    }
    let from: usize = label_end + 2;
    let to: usize = scan(Class::Target, src, from);
    if from < to && found(src, to, ')') {
        let first = Node::leaf(label, src, open + 1, label_end);
        let second = Node::leaf(target, src, from, to);
        Some((Node::new(rule, src, start, to + 1, two(first, second)), to + 1))
    } else {
        None
    }
}

pub fn parse_link(src: &[char], pos: usize) -> (r: Option<(Node, usize)>)
    ensures
        agrees(r, link_at(src@, pos as int)),
        r matches Some((_, e)) ==> pos < e <= src@.len(),
{
    parse_reference(src, pos, pos, Rule::Link, Rule::LinkContent, Rule::LinkUrl)
}

pub fn parse_image(src: &[char], pos: usize) -> (r: Option<(Node, usize)>)
    ensures
        agrees(r, image_at(src@, pos as int)),
        r matches Some((_, e)) ==> pos < e <= src@.len(),
{
    if found(src, pos, '!') {
        parse_reference(src, pos, pos + 1, Rule::Image, Rule::ImageAlt, Rule::ImageUrl)
    } else {
        None
    }
}

pub fn parse_construct(src: &[char], pos: usize) -> (r: Option<(Node, usize)>)
    ensures
        agrees(r, construct_at(src@, pos as int)),
        r matches Some((_, e)) ==> pos < e <= src@.len(),
{
    let escape = parse_escape(src, pos);
    if escape.is_some() {
        return escape;
    }
    let formatting = parse_formatting(src, pos);
    if formatting.is_some() {
        return formatting;
    }
    let code = parse_code(src, pos);
    if code.is_some() {
        return code;
    }
    let image = parse_image(src, pos);
    if image.is_some() {
        return image;
    }
    parse_link(src, pos)
}

pub fn parse_plain(src: &[char], pos: usize) -> (r: Option<(Node, usize)>)
    ensures
        agrees(r, plain_at(src@, pos as int)),
        r matches Some((_, e)) ==> pos < e <= src@.len(),
{
    if pos >= src.len() {
        return None;
    }
    let to: usize = scan(Class::Plain, src, pos);
    if pos < to {
        Some((Node::leaf(Rule::PlainText, src, pos, to), to))
    } else {
        None
    }
}

pub fn parse_inline(src: &[char], pos: usize) -> (r: Option<(Node, usize)>)
    ensures
        agrees(r, inline_at(src@, pos as int)),
        r matches Some((_, e)) ==> pos < e <= src@.len(),
{
    if pos >= src.len() || line_break(src[pos]) {
        return None;
    }
    let construct = parse_construct(src, pos);
    if construct.is_some() {
        return construct;
    }
    let plain = parse_plain(src, pos);
    if plain.is_some() {
        return plain;
    }
    Some((Node::leaf(Rule::PlainText, src, pos, pos + 1), pos + 1))
}

/// The inline elements from `pos` to the end of the line, and where they end.
pub fn parse_inlines(src: &[char], pos: usize) -> (r: (Vec<Node>, usize))
    requires
        pos <= src@.len(),
    ensures
        (trees(r.0@), r.1 as int) == inlines(src@, pos as int, Seq::empty()),
        pos <= r.1 <= src@.len(),
        pos < src@.len() && !is_line_break(src@[pos as int]) ==> pos < r.1,
{
    let mut nodes: Vec<Node> = Vec::new();
    let mut at: usize = pos;
    assert(trees(nodes@) =~= Seq::empty());
    loop
        invariant
            pos <= at <= src@.len(),
            inlines(src@, at as int, trees(nodes@)) == inlines(src@, pos as int, Seq::empty()),
        decreases src@.len() - at,
    {
        match parse_inline(src, at) {
            Some((node, end)) => {
                push_node(&mut nodes, node);
                at = end;
            },
            None => {
                return (nodes, at);
            },
        }
    }
}

} // verus!
