//! The block grammar: what the lines of a document form.
//!
//! At the start of each line the blocks are tried in a fixed order: the
//! heading, the thematic break, the code fence, the quote, the unordered and
//! the ordered list, and the blank line. A line that starts none of them
//! belongs to a paragraph.

use vstd::prelude::*;
use crate::chars::{is_line_break, line_break};
use crate::inline::{inlines, parse_inlines};
use crate::scan::{ahead, break_len, break_len_at, fence_at, found, is_fence_at, run_end, scan, Class};
use crate::tree::{agrees, branch, leaf, one, push_node, trees, two, Node, Rule, Tree};

verus! {

/// The index after the line break at `at`, or `at` where no line break stands.
pub open spec fn past_break(s: Seq<char>, at: int) -> int {
    at + break_len(s, at)
}

/// The index after the rest of the line that holds `at`, its line break included.
pub open spec fn next_line(s: Seq<char>, at: int) -> int {
    past_break(s, run_end(Class::Line, s, at))
}

/// The rule of a heading of the given level.
pub open spec fn heading_rule(level: int) -> Rule {
    if level == 1 {
        Rule::H1Heading
    } else if level == 2 {
        Rule::H2Heading
    } else {
        Rule::H3Heading
    }
}

/// The number of `#` that open the line at `pos`.
pub open spec fn heading_level(s: Seq<char>, pos: int) -> int {
    run_end(Class::Repeat('#'), s, pos) - pos
}

/// A heading: one to three `#`, at least one blank, and the rest of the line.
pub open spec fn heading_at(s: Seq<char>, pos: int) -> Option<(Tree, int)> {
    let marks = run_end(Class::Repeat('#'), s, pos);
    let text = run_end(Class::Blank, s, marks);
    let end = next_line(s, text);
    if 1 <= marks - pos <= 3 && marks < text {
        Some((leaf(heading_rule(marks - pos), s, pos, end), end))
    } else {
        None
    }
}

/// A heading of exactly the given level.
pub open spec fn heading_of(level: int, s: Seq<char>, pos: int) -> Option<(Tree, int)> {
    if heading_level(s, pos) == level {
        heading_at(s, pos)
    } else {
        None
    }
}

/// A character that a thematic break is made of.
pub open spec fn is_break_mark(c: char) -> bool {
    c == '-' || c == '*' || c == '_'
}

/// A thematic break: three or more of one break mark, then only blanks to
/// the end of the line.
pub open spec fn break_at(s: Seq<char>, pos: int) -> Option<(Tree, int)> {
    if 0 <= pos < s.len() && is_break_mark(s[pos]) {
        let marks = run_end(Class::Repeat(s[pos]), s, pos);
        let rest = run_end(Class::Blank, s, marks);
        let end = past_break(s, rest);
        if marks - pos >= 3 && (rest == s.len() || break_len(s, rest) > 0) {
            Some((leaf(Rule::ThematicBreak, s, pos, end), end))
        } else {
            None
        }
    } else {
        None
    }
}

/// A blank line: blanks, if any, and a line break.
pub open spec fn blank_at(s: Seq<char>, pos: int) -> Option<(Tree, int)> {
    let rest = run_end(Class::Blank, s, pos);
    let end = past_break(s, rest);
    if 0 <= pos && break_len(s, rest) > 0 {
        Some((leaf(Rule::BlankLine, s, pos, end), end))
    } else {
        None
    }
}

/// A code fence: three backticks, an optional language tag between blanks
/// and a line break; the body, which runs to the line break before the first
/// line that starts with three backticks, or is empty where that line comes
/// at once; those three backticks, with the blanks and the line break after them.
pub open spec fn fence_block_at(s: Seq<char>, pos: int) -> Option<(Tree, int)> {
    let tag = run_end(Class::Blank, s, pos + 3);
    let tag_end = run_end(Class::Tag, s, tag);
    let open_end = run_end(Class::Blank, s, tag_end);
    let body = past_break(s, open_end);
    let body_end = if fence_at(s, body) {
        body
    } else {
        run_end(Class::Body, s, body)
    };
    let close = if fence_at(s, body) {
        body
    } else {
        past_break(s, body_end)
    };
    let end = past_break(s, run_end(Class::Blank, s, close + 3));
    if fence_at(s, pos) && break_len(s, open_end) > 0 && fence_at(s, close) {
        let code = leaf(Rule::CodeBody, s, body, body_end);
        let children = if tag < tag_end {
            seq![leaf(Rule::LanguageSpec, s, tag, tag_end), code]
        } else {
            seq![code]
        };
        Some((branch(Rule::CodeFence, s, pos, end, children), end))
    } else {
        None
    }
}

/// A quote line: `>`, the inline content of the rest of the line, and the
/// line break. The content is wrapped in one node, which an empty line lacks.
pub open spec fn quote_line_at(s: Seq<char>, pos: int) -> Option<(Tree, int)> {
    if ahead(s, pos, '>') {
        let (items, rest) = inlines(s, pos + 1, Seq::empty());
        let end = past_break(s, rest);
        let children = if items.len() > 0 {
            seq![branch(Rule::ParagraphText, s, pos + 1, rest, items)]
        } else {
            Seq::empty()
        };
        Some((branch(Rule::QuoteLine, s, pos, end, children), end))
    } else {
        None
    }
}

/// An unordered list item: `-` or `*`, at least one blank, and the rest of the line.
pub open spec fn unordered_item_at(s: Seq<char>, pos: int) -> Option<(Tree, int)> {
    let text = run_end(Class::Blank, s, pos + 1);
    let end = next_line(s, text);
    if (ahead(s, pos, '-') || ahead(s, pos, '*')) && pos + 1 < text {
        Some((leaf(Rule::UnorderedListItem, s, pos, end), end))
    } else {
        None
    }
}

/// An ordered list item: digits, `.`, at least one blank, and the rest of the line.
pub open spec fn ordered_item_at(s: Seq<char>, pos: int) -> Option<(Tree, int)> {
    let digits = run_end(Class::Digit, s, pos);
    let text = run_end(Class::Blank, s, digits + 1);
    let end = next_line(s, text);
    if pos < digits && ahead(s, digits, '.') && digits + 1 < text {
        Some((leaf(Rule::OrderedListItem, s, pos, end), end))
    } else {
        None
    }
}

/// The line at `pos` starts a block other than a paragraph.
pub open spec fn starts_block(s: Seq<char>, pos: int) -> bool {
    heading_at(s, pos) is Some || break_at(s, pos) is Some || fence_block_at(s, pos) is Some
        || ahead(s, pos, '>') || unordered_item_at(s, pos) is Some || ordered_item_at(s, pos)
        is Some || blank_at(s, pos) is Some
}

/// A paragraph line: a line that starts no other block, as its inline
/// elements and its line break.
pub open spec fn paragraph_line_at(s: Seq<char>, pos: int) -> Option<(Tree, int)> {
    if 0 <= pos < s.len() && !starts_block(s, pos) {
        let (items, rest) = inlines(s, pos, Seq::empty());
        let end = past_break(s, rest);
        Some((branch(Rule::ParagraphLine, s, pos, end, items), end))
    } else {
        None
    }
}

/// The blocks that are made of consecutive lines of one kind.
#[derive(Clone, Copy, Debug)]
pub enum Group {
    Quote,
    Unordered,
    Ordered,
    Paragraph,
}

/// One line of a group.
pub open spec fn line_at(group: Group, s: Seq<char>, pos: int) -> Option<(Tree, int)> {
    match group {
        Group::Quote => quote_line_at(s, pos),
        Group::Unordered => unordered_item_at(s, pos),
        Group::Ordered => ordered_item_at(s, pos),
        Group::Paragraph => paragraph_line_at(s, pos),
    }
}

/// The rule of the block that a group forms.
pub open spec fn group_rule(group: Group) -> Rule {
    match group {
        Group::Quote => Rule::DocumentQuote,
        Group::Unordered => Rule::DocumentUnorderedList,
        Group::Ordered => Rule::DocumentOrderedList,
        Group::Paragraph => Rule::DocumentParagraph,
    }
}

/// The consecutive lines of a group from `pos` on, after those of `acc`, and
/// where they end.
pub open spec fn lines(group: Group, s: Seq<char>, pos: int, acc: Seq<Tree>) -> (Seq<Tree>, int)
    decreases s.len() - pos,
{
    match line_at(group, s, pos) {
        Some((t, e)) => if pos < e <= s.len() {
            lines(group, s, e, acc.push(t))
        } else {
            (acc, pos)
        },
        None => (acc, pos),
    }
}

/// The block that one or more consecutive lines of a group form.
pub open spec fn group_at(group: Group, s: Seq<char>, pos: int) -> Option<(Tree, int)> {
    let (items, end) = lines(group, s, pos, Seq::empty());
    if items.len() > 0 {
        Some((branch(group_rule(group), s, pos, end, items), end))
    } else {
        None
    }
}

/// The block at `pos`, by the order of precedence.
pub open spec fn content_at(s: Seq<char>, pos: int) -> Option<(Tree, int)> {
    if heading_at(s, pos) is Some {
        heading_at(s, pos)
    } else if break_at(s, pos) is Some {
        break_at(s, pos)
    } else if fence_block_at(s, pos) is Some {
        fence_block_at(s, pos)
    } else if group_at(Group::Quote, s, pos) is Some {
        group_at(Group::Quote, s, pos)
    } else if group_at(Group::Unordered, s, pos) is Some {
        group_at(Group::Unordered, s, pos)
    } else if group_at(Group::Ordered, s, pos) is Some {
        group_at(Group::Ordered, s, pos)
    } else if blank_at(s, pos) is Some {
        blank_at(s, pos)
    } else {
        group_at(Group::Paragraph, s, pos)
    }
}

/// One top-level block: the block at `pos` in its wrapper.
pub open spec fn block_at(s: Seq<char>, pos: int) -> Option<(Tree, int)> {
    match content_at(s, pos) {
        Some((t, e)) => Some((branch(Rule::DocumentBlock, s, pos, e, seq![t]), e)),
        None => None,
    }
}

/// The top-level blocks from `pos` on, after those of `acc`, and where they end.
pub open spec fn blocks(s: Seq<char>, pos: int, acc: Seq<Tree>) -> (Seq<Tree>, int)
    decreases s.len() - pos,
{
    match block_at(s, pos) {
        Some((t, e)) => if pos < e <= s.len() {
            blocks(s, e, acc.push(t))
        } else {
            (acc, pos)
        },
        None => (acc, pos),
    }
}

/// The end-of-input marker, which matches at the end of the text alone.
pub open spec fn end_at(s: Seq<char>, pos: int) -> Option<(Tree, int)> {
    if pos == s.len() {
        Some((leaf(Rule::Eoi, s, pos, pos), pos))
    } else {
        None
    }
}

/// The document: the top-level blocks of the whole text, then the
/// end-of-input marker.
pub open spec fn document_at(s: Seq<char>, pos: int) -> Option<(Tree, int)> {
    let (items, end) = blocks(s, pos, Seq::empty());
    if 0 <= pos && end == s.len() {
        Some((branch(Rule::DocumentStructure, s, pos, end, items.push(leaf(Rule::Eoi, s, end, end))), end))
    } else {
        None
    }
}

/// The index after the line break at `at`.
pub fn skip_break(src: &[char], at: usize) -> (end: usize)
    requires
        at <= src@.len(),
    ensures
        end == past_break(src@, at as int),
        at <= end <= src@.len(),
{
    let k = break_len_at(src, at);
    at + k
}

/// The index after the rest of the line that holds `at`.
pub fn skip_line(src: &[char], at: usize) -> (end: usize)
    requires
        at <= src@.len(),
    ensures
        end == next_line(src@, at as int),
        at <= end <= src@.len(),
{
    let rest = scan(Class::Line, src, at);
    skip_break(src, rest)
}

pub fn parse_heading(src: &[char], pos: usize) -> (r: Option<(Node, usize)>)
    requires
        pos <= src@.len(),
    ensures
        agrees(r, heading_at(src@, pos as int)),
        r matches Some((_, e)) ==> pos < e <= src@.len(),
{
    let marks: usize = scan(Class::Repeat('#'), src, pos);
    let level: usize = marks - pos;
    if level < 1 || level > 3 {
        return None;
    }
    let text: usize = scan(Class::Blank, src, marks);
    if marks >= text {
        return None;
    }
    let end: usize = skip_line(src, text);
    let rule = if level == 1 {
        Rule::H1Heading
    } else if level == 2 {
        Rule::H2Heading
    } else {
        Rule::H3Heading
    };
    Some((Node::leaf(rule, src, pos, end), end))
}

pub fn parse_break(src: &[char], pos: usize) -> (r: Option<(Node, usize)>)
    requires
        pos <= src@.len(),
    ensures
        agrees(r, break_at(src@, pos as int)),
        r matches Some((_, e)) ==> pos < e <= src@.len(),
{
    if pos >= src.len() {
        return None;
    }
    let mark: char = src[pos];
    if !(mark == '-' || mark == '*' || mark == '_') {
        return None;
    }
    let marks: usize = scan(Class::Repeat(mark), src, pos);
    let rest: usize = scan(Class::Blank, src, marks);
    if marks - pos >= 3 && (rest == src.len() || break_len_at(src, rest) > 0) {
        let end: usize = skip_break(src, rest);
        Some((Node::leaf(Rule::ThematicBreak, src, pos, end), end))
    } else {
        None
    }
}

pub fn parse_blank(src: &[char], pos: usize) -> (r: Option<(Node, usize)>)
    requires
        pos <= src@.len(),
    ensures
        agrees(r, blank_at(src@, pos as int)),
        r matches Some((_, e)) ==> pos < e <= src@.len(),
{
    let rest: usize = scan(Class::Blank, src, pos);
    if break_len_at(src, rest) > 0 {
        let end: usize = skip_break(src, rest);
        Some((Node::leaf(Rule::BlankLine, src, pos, end), end))
    } else {
        None
    }
}

pub fn parse_fence(src: &[char], pos: usize) -> (r: Option<(Node, usize)>)
    requires
        pos <= src@.len(),
    ensures
        agrees(r, fence_block_at(src@, pos as int)),
        r matches Some((_, e)) ==> pos < e <= src@.len(),
{
    if !is_fence_at(src, pos) {
        return None;
    }
    let tag: usize = scan(Class::Blank, src, pos + 3);
    let tag_end: usize = scan(Class::Tag, src, tag);
    let open_end: usize = scan(Class::Blank, src, tag_end);
    if break_len_at(src, open_end) == 0 {
        return None;
    }
    let body: usize = skip_break(src, open_end);
    let at_once: bool = is_fence_at(src, body);
    let body_end: usize = if at_once {
        body
    } else {
        scan(Class::Body, src, body)
    };
    let close: usize = if at_once {
        body
    } else {
        skip_break(src, body_end)
    };
    if !is_fence_at(src, close) {
        return None;
    }
    let rest: usize = scan(Class::Blank, src, close + 3);
    let end: usize = skip_break(src, rest);
    let code = Node::leaf(Rule::CodeBody, src, body, body_end);
    let children = if tag < tag_end {
        two(Node::leaf(Rule::LanguageSpec, src, tag, tag_end), code)
    } else {
        one(code)
    };
    Some((Node::new(Rule::CodeFence, src, pos, end, children), end))
}

pub fn parse_quote_line(src: &[char], pos: usize) -> (r: Option<(Node, usize)>)
    requires
        pos <= src@.len(),
    ensures
        agrees(r, quote_line_at(src@, pos as int)),
        r matches Some((_, e)) ==> pos < e <= src@.len(),
{
    if !found(src, pos, '>') {
        return None;
    }
    let (items, rest) = parse_inlines(src, pos + 1);
    let end: usize = skip_break(src, rest);
    let children = if items.len() > 0 {
        one(Node::new(Rule::ParagraphText, src, pos + 1, rest, items))
    } else {
        items
    };
    assert(trees(children@) =~= if trees(items@).len() > 0 {
        seq![branch(Rule::ParagraphText, src@, pos + 1, rest as int, trees(items@))]
    } else {
        Seq::empty()
    });
    Some((Node::new(Rule::QuoteLine, src, pos, end, children), end))
}

pub fn parse_unordered_item(src: &[char], pos: usize) -> (r: Option<(Node, usize)>)
    requires
        pos <= src@.len(),
    ensures
        agrees(r, unordered_item_at(src@, pos as int)),
        r matches Some((_, e)) ==> pos < e <= src@.len(),
{
    if !(found(src, pos, '-') || found(src, pos, '*')) {
        return None;
    }
    let text: usize = scan(Class::Blank, src, pos + 1);
    if pos + 1 < text {
        let end: usize = skip_line(src, text);
        Some((Node::leaf(Rule::UnorderedListItem, src, pos, end), end))
    } else {
        None
    }
}

pub fn parse_ordered_item(src: &[char], pos: usize) -> (r: Option<(Node, usize)>)
    requires
        pos <= src@.len(),
    ensures
        agrees(r, ordered_item_at(src@, pos as int)),
        r matches Some((_, e)) ==> pos < e <= src@.len(),
{
    let digits: usize = scan(Class::Digit, src, pos);
    if !(pos < digits && found(src, digits, '.')) {
        return None;
    }
    let text: usize = scan(Class::Blank, src, digits + 1);
    if digits + 1 < text {
        let end: usize = skip_line(src, text);
        Some((Node::leaf(Rule::OrderedListItem, src, pos, end), end))
    } else {
        None
    }
}

/// Whether the line at `pos` starts a block other than a paragraph.
pub fn is_block_start(src: &[char], pos: usize) -> (b: bool)
    requires
        pos <= src@.len(),
    ensures
        b == starts_block(src@, pos as int),
{
    parse_heading(src, pos).is_some() || parse_break(src, pos).is_some() || parse_fence(
        src,
        pos,
    ).is_some() || found(src, pos, '>') || parse_unordered_item(src, pos).is_some()
        || parse_ordered_item(src, pos).is_some() || parse_blank(src, pos).is_some()
}

pub fn parse_paragraph_line(src: &[char], pos: usize) -> (r: Option<(Node, usize)>)
    requires
        pos <= src@.len(),
    ensures
        agrees(r, paragraph_line_at(src@, pos as int)),
        r matches Some((_, e)) ==> pos < e <= src@.len(),
{
    if pos >= src.len() || is_block_start(src, pos) {
        return None;
    }
    let (items, rest) = parse_inlines(src, pos);
    let end: usize = skip_break(src, rest);
    Some((Node::new(Rule::ParagraphLine, src, pos, end, items), end))
}

pub fn parse_line(group: Group, src: &[char], pos: usize) -> (r: Option<(Node, usize)>)
    requires
        pos <= src@.len(),
    ensures
        agrees(r, line_at(group, src@, pos as int)),
        r matches Some((_, e)) ==> pos < e <= src@.len(),
{
    match group {
        Group::Quote => parse_quote_line(src, pos),
        Group::Unordered => parse_unordered_item(src, pos),
        Group::Ordered => parse_ordered_item(src, pos),
        Group::Paragraph => parse_paragraph_line(src, pos),
    }
}

/// The consecutive lines of a group from `pos` on, and where they end.
pub fn parse_lines(group: Group, src: &[char], pos: usize) -> (r: (Vec<Node>, usize))
    requires
        pos <= src@.len(),
    ensures
        (trees(r.0@), r.1 as int) == lines(group, src@, pos as int, Seq::empty()),
        pos <= r.1 <= src@.len(),
        r.0@.len() > 0 ==> pos < r.1,
{
    let mut nodes: Vec<Node> = Vec::new();
    let mut at: usize = pos;
    assert(trees(nodes@) =~= Seq::empty());
    loop
        invariant
            pos <= at <= src@.len(),
            nodes@.len() > 0 ==> pos < at,
            lines(group, src@, at as int, trees(nodes@)) == lines(
                group,
                src@,
                pos as int,
                Seq::empty(),
            ),
        decreases src@.len() - at,
    {
        match parse_line(group, src, at) {
            Some((node, end)) => {
                push_node(&mut nodes, node);
                at = end;
            },
            None => {
                return (nodes, at);
            },
        }
    }
}

pub fn parse_group(group: Group, src: &[char], pos: usize) -> (r: Option<(Node, usize)>)
    requires
        pos <= src@.len(),
    ensures
        agrees(r, group_at(group, src@, pos as int)),
        r matches Some((_, e)) ==> pos < e <= src@.len(),
{
    let (items, end) = parse_lines(group, src, pos);
    if items.len() > 0 {
        let rule = match group {
            Group::Quote => Rule::DocumentQuote,
            Group::Unordered => Rule::DocumentUnorderedList,
            Group::Ordered => Rule::DocumentOrderedList,
            Group::Paragraph => Rule::DocumentParagraph,
        };
        Some((Node::new(rule, src, pos, end, items), end))
    } else {
        None
    }
}

pub fn parse_content(src: &[char], pos: usize) -> (r: Option<(Node, usize)>)
    requires
        pos <= src@.len(),
    ensures
        agrees(r, content_at(src@, pos as int)),
        r matches Some((_, e)) ==> pos < e <= src@.len(),
{
    let heading = parse_heading(src, pos);
    if heading.is_some() {
        return heading;
    }
    let rule = parse_break(src, pos);
    if rule.is_some() {
        return rule;
    }
    let fence = parse_fence(src, pos);
    if fence.is_some() {
        return fence;
    }
    let quote = parse_group(Group::Quote, src, pos);
    if quote.is_some() {
        return quote;
    }
    let unordered = parse_group(Group::Unordered, src, pos);
    if unordered.is_some() {
        return unordered;
    }
    let ordered = parse_group(Group::Ordered, src, pos);
    if ordered.is_some() {
        return ordered;
    }
    let blank = parse_blank(src, pos);
    if blank.is_some() {
        return blank;
    }
    parse_group(Group::Paragraph, src, pos)
}

pub fn parse_block(src: &[char], pos: usize) -> (r: Option<(Node, usize)>)
    requires
        pos <= src@.len(),
    ensures
        agrees(r, block_at(src@, pos as int)),
        r matches Some((_, e)) ==> pos < e <= src@.len(),
{
    match parse_content(src, pos) {
        Some((node, end)) => Some((Node::new(Rule::DocumentBlock, src, pos, end, one(node)), end)),
        None => None,
    }
}

/// The top-level blocks from `pos` on, and where they end.
pub fn parse_blocks(src: &[char], pos: usize) -> (r: (Vec<Node>, usize))
    requires
        pos <= src@.len(),
    ensures
        (trees(r.0@), r.1 as int) == blocks(src@, pos as int, Seq::empty()),
        pos <= r.1 <= src@.len(),
{
    let mut nodes: Vec<Node> = Vec::new();
    let mut at: usize = pos;
    assert(trees(nodes@) =~= Seq::empty());
    loop
        invariant
            pos <= at <= src@.len(),
            blocks(src@, at as int, trees(nodes@)) == blocks(src@, pos as int, Seq::empty()),
        decreases src@.len() - at,
    {
        match parse_block(src, at) {
            Some((node, end)) => {
                push_node(&mut nodes, node);
                at = end;
            },
            None => {
                return (nodes, at);
            },
        }
    }
}

pub fn parse_end(src: &[char], pos: usize) -> (r: Option<(Node, usize)>)
    requires
        pos <= src@.len(),
    ensures
        agrees(r, end_at(src@, pos as int)),
{
    if pos == src.len() {
        Some((Node::leaf(Rule::Eoi, src, pos, pos), pos))
    } else {
        None
    }
}

pub fn parse_document(src: &[char], pos: usize) -> (r: Option<(Node, usize)>)
    requires
        pos <= src@.len(),
    ensures
        agrees(r, document_at(src@, pos as int)),
{
    let (items, end) = parse_blocks(src, pos);
    if end == src.len() {
        let mut children = items;
        push_node(&mut children, Node::leaf(Rule::Eoi, src, end, end));
        Some((Node::new(Rule::DocumentStructure, src, pos, end, children), end))
    } else {
        None
    }
}

} // verus!
