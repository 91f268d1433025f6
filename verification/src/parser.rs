//! The parser: one entry point for every rule of the grammar.

use vstd::prelude::*;
use crate::block::{
    blank_at, block_at, break_at, document_at, end_at, fence_block_at, group_at, heading_at,
    heading_level, heading_of, ordered_item_at, paragraph_line_at, parse_blank, parse_block,
    parse_break, parse_document, parse_end, parse_fence, parse_group, parse_heading,
    parse_ordered_item, parse_paragraph_line, parse_quote_line, parse_unordered_item,
    quote_line_at, unordered_item_at, Group,
};
use crate::chars::{is_punctuation, punctuation};
use crate::error::{expected, Failure, MarkdownError};
use crate::inline::{
    bold_at, code_at, escape_at, formatting_at, image_at, inlines, italic_at, link_at,
    parse_code, parse_escape, parse_formatting, parse_image, parse_inlines, parse_italic,
    parse_link, parse_paired, parse_plain, plain_at, strikethrough_at, underline_at,
};
use crate::scan::{run_end, scan, step, step_at, Class};
use crate::text::chars_of;
use crate::tree::{agrees, branch, leaf, trees, Node, Rule, Tree};

verus! {

/// The longest run of `class` at `pos` as a childless node of `rule`; an
/// empty run matches only where `empty` allows it.
pub open spec fn run_at(class: Class, rule: Rule, empty: bool, s: Seq<char>, pos: int) -> Option<
    (Tree, int),
> {
    let to = run_end(class, s, pos);
    if 0 <= pos <= s.len() && (empty || pos < to) {
        Some((leaf(rule, s, pos, to), to))
    } else {
        None
    }
}

/// One step of `class` at `pos` as a childless node of `rule`.
pub open spec fn step_node_at(class: Class, rule: Rule, s: Seq<char>, pos: int) -> Option<
    (Tree, int),
> {
    let k = step(class, s, pos);
    if k > 0 {
        Some((leaf(rule, s, pos, pos + k), pos + k))
    } else {
        None
    }
}

/// The inline elements of the rest of the line in one node, if there are any.
pub open spec fn text_at(s: Seq<char>, pos: int) -> Option<(Tree, int)> {
    let (items, end) = inlines(s, pos, Seq::empty());
    if items.len() > 0 {
        Some((branch(Rule::ParagraphText, s, pos, end, items), end))
    } else {
        None
    }
}

/// The punctuation character at `pos`.
pub open spec fn character_at(s: Seq<char>, pos: int) -> Option<(Tree, int)> {
    if 0 <= pos < s.len() && is_punctuation(s[pos]) {
        Some((leaf(Rule::Character, s, pos, pos + 1), pos + 1))
    } else {
        None
    }
}

/// What `rule` matches at `pos`: the node and the index where the match
/// ends, or nothing where the rule does not match there. A rule that stands
/// for others gives the node of the one that matched.
pub open spec fn rule_at(rule: Rule, s: Seq<char>, pos: int) -> Option<(Tree, int)> {
    match rule {
        Rule::DocumentStructure => document_at(s, pos),
        Rule::DocumentBlock => block_at(s, pos),
        Rule::DocumentHeading => heading_at(s, pos),
        Rule::H1Heading => heading_of(1, s, pos),
        Rule::H2Heading => heading_of(2, s, pos),
        Rule::H3Heading => heading_of(3, s, pos),
        Rule::DocumentParagraph => group_at(Group::Paragraph, s, pos),
        Rule::ParagraphLine => paragraph_line_at(s, pos),
        Rule::ParagraphText => text_at(s, pos),
        Rule::DocumentQuote => group_at(Group::Quote, s, pos),
        Rule::QuoteLine => quote_line_at(s, pos),
        Rule::DocumentUnorderedList => group_at(Group::Unordered, s, pos),
        Rule::DocumentOrderedList => group_at(Group::Ordered, s, pos),
        Rule::UnorderedListItem => unordered_item_at(s, pos),
        Rule::OrderedListItem => ordered_item_at(s, pos),
        Rule::CodeFence => fence_block_at(s, pos),
        Rule::LanguageSpec => run_at(Class::Tag, rule, false, s, pos),
        Rule::CodeBody => run_at(Class::Body, rule, true, s, pos),
        Rule::ThematicBreak => break_at(s, pos),
        Rule::BlankLine => blank_at(s, pos),
        Rule::TextFormatting => formatting_at(s, pos),
        Rule::BoldFormatting => bold_at(s, pos),
        Rule::BoldContent => run_at(Class::UntilPair('*'), rule, false, s, pos),
        Rule::ItalicFormatting => italic_at(s, pos),
        Rule::ItalicContent => run_at(Class::Emphasis, rule, false, s, pos),
        Rule::UnderlineFormatting => underline_at(s, pos),
        Rule::UnderlineContent => run_at(Class::UntilPair('_'), rule, false, s, pos),
        Rule::StrikethroughFormatting => strikethrough_at(s, pos),
        Rule::StrikethroughContent => run_at(Class::UntilPair('~'), rule, false, s, pos),
        Rule::InlineCode => code_at(s, pos),
        Rule::Link => link_at(s, pos),
        Rule::LinkContent => run_at(Class::Label, rule, true, s, pos),
        Rule::LinkUrl => run_at(Class::Target, rule, false, s, pos),
        Rule::LinkChar => step_node_at(Class::Label, rule, s, pos),
        Rule::Image => image_at(s, pos),
        Rule::ImageAlt => run_at(Class::Label, rule, true, s, pos),
        Rule::ImageUrl => run_at(Class::Target, rule, false, s, pos),
        Rule::ImageChar => step_node_at(Class::Label, rule, s, pos),
        Rule::UrlChar => step_node_at(Class::Target, rule, s, pos),
        Rule::EscapeSequence => escape_at(s, pos),
        Rule::Character => character_at(s, pos),
        Rule::PlainText => plain_at(s, pos),
        Rule::PlainChar => step_node_at(Class::Plain, rule, s, pos),
        Rule::Eoi => end_at(s, pos),
    }
}

pub fn parse_run(class: Class, rule: Rule, empty: bool, src: &[char], pos: usize) -> (r: Option<
    (Node, usize),
>)
    requires
        pos <= src@.len(),
    ensures
        agrees(r, run_at(class, rule, empty, src@, pos as int)),
{
    let to: usize = scan(class, src, pos);
    if empty || pos < to {
        Some((Node::leaf(rule, src, pos, to), to))
    } else {
        None
    }
}

pub fn parse_step(class: Class, rule: Rule, src: &[char], pos: usize) -> (r: Option<(Node, usize)>)
    requires
        pos <= src@.len(),
    ensures
        agrees(r, step_node_at(class, rule, src@, pos as int)),
{
    let k: usize = step_at(class, src, pos);
    if k > 0 {
        Some((Node::leaf(rule, src, pos, pos + k), pos + k))
    } else {
        None
    }
}

pub fn parse_text(src: &[char], pos: usize) -> (r: Option<(Node, usize)>)
    requires
        pos <= src@.len(),
    ensures
        agrees(r, text_at(src@, pos as int)),
{
    let (items, end) = parse_inlines(src, pos);
    if items.len() > 0 {
        Some((Node::new(Rule::ParagraphText, src, pos, end, items), end))
    } else {
        None
    }
}

pub fn parse_character(src: &[char], pos: usize) -> (r: Option<(Node, usize)>)
    requires
        pos <= src@.len(),
    ensures
        agrees(r, character_at(src@, pos as int)),
{
    if pos < src.len() && punctuation(src[pos]) {
        Some((Node::leaf(Rule::Character, src, pos, pos + 1), pos + 1))
    } else {
        None
    }
}

pub fn parse_heading_of(level: usize, src: &[char], pos: usize) -> (r: Option<(Node, usize)>)
    requires
        pos <= src@.len(),
    ensures
        agrees(r, heading_of(level as int, src@, pos as int)),
{
    let marks: usize = scan(Class::Repeat('#'), src, pos);
    if marks - pos == level {
        parse_heading(src, pos)
    } else {
        None
    }
}

/// What `rule` matches at `pos`.
pub fn parse_rule(rule: Rule, src: &[char], pos: usize) -> (r: Option<(Node, usize)>)
    requires
        pos <= src@.len(),
    ensures
        agrees(r, rule_at(rule, src@, pos as int)),
{
    match rule {
        Rule::DocumentStructure => parse_document(src, pos),
        Rule::DocumentBlock => parse_block(src, pos),
        Rule::DocumentHeading => parse_heading(src, pos),
        Rule::H1Heading => parse_heading_of(1, src, pos),
        Rule::H2Heading => parse_heading_of(2, src, pos),
        Rule::H3Heading => parse_heading_of(3, src, pos),
        Rule::DocumentParagraph => parse_group(Group::Paragraph, src, pos),
        Rule::ParagraphLine => parse_paragraph_line(src, pos),
        Rule::ParagraphText => parse_text(src, pos),
        Rule::DocumentQuote => parse_group(Group::Quote, src, pos),
        Rule::QuoteLine => parse_quote_line(src, pos),
        Rule::DocumentUnorderedList => parse_group(Group::Unordered, src, pos),
        Rule::DocumentOrderedList => parse_group(Group::Ordered, src, pos),
        Rule::UnorderedListItem => parse_unordered_item(src, pos),
        Rule::OrderedListItem => parse_ordered_item(src, pos),
        Rule::CodeFence => parse_fence(src, pos),
        Rule::LanguageSpec => parse_run(Class::Tag, rule, false, src, pos),
        Rule::CodeBody => parse_run(Class::Body, rule, true, src, pos),
        Rule::ThematicBreak => parse_break(src, pos),
        Rule::BlankLine => parse_blank(src, pos),
        Rule::TextFormatting => parse_formatting(src, pos),
        Rule::BoldFormatting => parse_paired(
            src,
            pos,
            '*',
            Rule::BoldFormatting,
            Rule::BoldContent,
        ),
        Rule::BoldContent => parse_run(Class::UntilPair('*'), rule, false, src, pos),
        Rule::ItalicFormatting => parse_italic(src, pos),
        Rule::ItalicContent => parse_run(Class::Emphasis, rule, false, src, pos),
        Rule::UnderlineFormatting => parse_paired(
            src,
            pos,
            '_',
            Rule::UnderlineFormatting,
            Rule::UnderlineContent,
        ),
        Rule::UnderlineContent => parse_run(Class::UntilPair('_'), rule, false, src, pos),
        Rule::StrikethroughFormatting => parse_paired(
            src,
            pos,
            '~',
            Rule::StrikethroughFormatting,
            Rule::StrikethroughContent,
        ),
        Rule::StrikethroughContent => parse_run(Class::UntilPair('~'), rule, false, src, pos),
        Rule::InlineCode => parse_code(src, pos),
        Rule::Link => parse_link(src, pos),
        Rule::LinkContent => parse_run(Class::Label, rule, true, src, pos),
        Rule::LinkUrl => parse_run(Class::Target, rule, false, src, pos),
        Rule::LinkChar => parse_step(Class::Label, rule, src, pos),
        Rule::Image => parse_image(src, pos),
        Rule::ImageAlt => parse_run(Class::Label, rule, true, src, pos),
        Rule::ImageUrl => parse_run(Class::Target, rule, false, src, pos),
        Rule::ImageChar => parse_step(Class::Label, rule, src, pos),
        Rule::UrlChar => parse_step(Class::Target, rule, src, pos),
        Rule::EscapeSequence => parse_escape(src, pos),
        Rule::Character => parse_character(src, pos),
        Rule::PlainText => parse_plain(src, pos),
        Rule::PlainChar => parse_step(Class::Plain, rule, src, pos),
        Rule::Eoi => parse_end(src, pos),
    }
}

/// The parser of the markup grammar.
pub struct MarkdownParser;

impl MarkdownParser {
    /// Matches `rule` at the start of `input`. The match need not reach the
    /// end of the text: the node's own text tells how far it went.
    pub fn parse(rule: Rule, input: &str) -> (r: Result<Node, MarkdownError>)
        ensures
            match r {
                Ok(node) => rule_at(rule, input@, 0) matches Some((t, _)) && node@ == t,
                Err(e) => rule_at(rule, input@, 0) is None && e@ == Failure::Parse(expected(rule)),
            },
    {
        let src = chars_of(input);
        match parse_rule(rule, src.as_slice(), 0) {
            Some((node, _)) => Ok(node),
            None => Err(MarkdownError::unmatched(rule)),
        }
    }
}

} // verus!
