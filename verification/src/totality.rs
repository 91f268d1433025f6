//! Every text parses: the grammar leaves no input unmatched.

use vstd::prelude::*;
use crate::block::{
    blank_at, block_at, blocks, break_at, content_at, document_at, fence_block_at, group_at,
    heading_at, line_at, lines, ordered_item_at, paragraph_line_at, quote_line_at, starts_block,
    unordered_item_at, Group,
};
use crate::chars::is_line_break;
use crate::inline::{
    bold_at, code_at, construct_at, escape_at, formatting_at, image_at, inline_at, inlines,
    italic_at, italic_with, link_at, paired_at, plain_at, reference_at, strikethrough_at,
    underline_at,
};
use crate::scan::{ahead, break_len, fence_at, lemma_run_end_bounds, run_end, Class};
use crate::convert::{blocks_html, html_of};
use crate::render::{inline_html, node_html, part_html, parts_html, quoted_html, Part};
use crate::tree::{leaf, Rule, Tree};

verus! {

/// A match ends after `pos` and inside the text.
pub open spec fn advances(m: Option<(Tree, int)>, s: Seq<char>, pos: int) -> bool {
    m matches Some((_, e)) ==> pos < e <= s.len()
}

proof fn lemma_paired_advances(s: Seq<char>, pos: int, mark: char, rule: Rule, inner: Rule)
    requires
        0 <= pos,
    ensures
        advances(paired_at(s, pos, mark, rule, inner), s, pos),
{
    if ahead(s, pos, mark) && ahead(s, pos + 1, mark) {
        lemma_run_end_bounds(Class::UntilPair(mark), s, pos + 2);
    }
}

proof fn lemma_italic_advances(s: Seq<char>, pos: int, mark: char)
    requires
        0 <= pos,
    ensures
        advances(italic_with(s, pos, mark), s, pos),
{
    if ahead(s, pos, mark) {
        lemma_run_end_bounds(Class::Emphasis, s, pos + 1);
    }
}

proof fn lemma_reference_advances(
    s: Seq<char>,
    start: int,
    open: int,
    rule: Rule,
    label: Rule,
    target: Rule,
)
    requires
        0 <= start <= open,
    ensures
        advances(reference_at(s, start, open, rule, label, target), s, open),
{
    if ahead(s, open, '[') {
        lemma_run_end_bounds(Class::Label, s, open + 1);
        let label_end = run_end(Class::Label, s, open + 1);
        if ahead(s, label_end, ']') && ahead(s, label_end + 1, '(') {
            lemma_run_end_bounds(Class::Target, s, label_end + 2);
        }
    }
}

/// An inline element is never empty and never runs past the text.
pub proof fn lemma_inline_advances(s: Seq<char>, pos: int)
    requires
        0 <= pos,
    ensures
        advances(inline_at(s, pos), s, pos),
        pos < s.len() && !is_line_break(s[pos]) ==> inline_at(s, pos) is Some,
{
    lemma_paired_advances(s, pos, '*', Rule::BoldFormatting, Rule::BoldContent);
    lemma_paired_advances(s, pos, '_', Rule::UnderlineFormatting, Rule::UnderlineContent);
    lemma_paired_advances(s, pos, '~', Rule::StrikethroughFormatting, Rule::StrikethroughContent);
    lemma_italic_advances(s, pos, '*');
    lemma_italic_advances(s, pos, '_');
    lemma_reference_advances(s, pos, pos, Rule::Link, Rule::LinkContent, Rule::LinkUrl);
    lemma_reference_advances(s, pos, pos + 1, Rule::Image, Rule::ImageAlt, Rule::ImageUrl);
    if ahead(s, pos, '`') {
        lemma_run_end_bounds(Class::Until('`'), s, pos + 1);
    }
    if pos <= s.len() {
        lemma_run_end_bounds(Class::Plain, s, pos);
    }
}

/// The inline elements of a line end inside the text, and after `pos` where
/// the line is not empty; none of those found before is lost.
pub proof fn lemma_inlines_bounds(s: Seq<char>, pos: int, acc: Seq<Tree>)
    requires
        0 <= pos <= s.len(),
    ensures
        pos <= inlines(s, pos, acc).1 <= s.len(),
        inlines(s, pos, acc).0.len() >= acc.len(),
        pos < s.len() && !is_line_break(s[pos]) ==> pos < inlines(s, pos, acc).1 && inlines(
            s,
            pos,
            acc,
        ).0.len() > acc.len(),
    decreases s.len() - pos,
{
    lemma_inline_advances(s, pos);
    match inline_at(s, pos) {
        Some((t, e)) => {
            lemma_inlines_bounds(s, e, acc.push(t));
        },
        None => {},
    }
}

proof fn lemma_heading_advances(s: Seq<char>, pos: int)
    requires
        0 <= pos <= s.len(),
    ensures
        advances(heading_at(s, pos), s, pos),
{
    lemma_run_end_bounds(Class::Repeat('#'), s, pos);
    let marks = run_end(Class::Repeat('#'), s, pos);
    lemma_run_end_bounds(Class::Blank, s, marks);
    let text = run_end(Class::Blank, s, marks);
    lemma_run_end_bounds(Class::Line, s, text);
}

proof fn lemma_break_advances(s: Seq<char>, pos: int)
    requires
        0 <= pos <= s.len(),
    ensures
        advances(break_at(s, pos), s, pos),
{
    if pos < s.len() {
        lemma_run_end_bounds(Class::Repeat(s[pos]), s, pos);
        let marks = run_end(Class::Repeat(s[pos]), s, pos);
        lemma_run_end_bounds(Class::Blank, s, marks);
    }
}

proof fn lemma_blank_advances(s: Seq<char>, pos: int)
    requires
        0 <= pos <= s.len(),
    ensures
        advances(blank_at(s, pos), s, pos),
        pos < s.len() && is_line_break(s[pos]) ==> blank_at(s, pos) is Some,
{
    lemma_run_end_bounds(Class::Blank, s, pos);
}

proof fn lemma_fence_advances(s: Seq<char>, pos: int)
    requires
        0 <= pos <= s.len(),
    ensures
        advances(fence_block_at(s, pos), s, pos),
{
    if fence_at(s, pos) {
        lemma_run_end_bounds(Class::Blank, s, pos + 3);
        let tag = run_end(Class::Blank, s, pos + 3);
        lemma_run_end_bounds(Class::Tag, s, tag);
        let tag_end = run_end(Class::Tag, s, tag);
        lemma_run_end_bounds(Class::Blank, s, tag_end);
        let open_end = run_end(Class::Blank, s, tag_end);
        let body = open_end + break_len(s, open_end);
        lemma_run_end_bounds(Class::Body, s, body);
        let body_end = run_end(Class::Body, s, body);
        let close = if fence_at(s, body) {
            body
        } else {
            body_end + break_len(s, body_end)
        };
        if fence_at(s, close) {
            lemma_run_end_bounds(Class::Blank, s, close + 3);
        }
    }
}

proof fn lemma_items_advance(s: Seq<char>, pos: int)
    requires
        0 <= pos <= s.len(),
    ensures
        advances(unordered_item_at(s, pos), s, pos),
        advances(ordered_item_at(s, pos), s, pos),
{
    if pos < s.len() {
        lemma_run_end_bounds(Class::Blank, s, pos + 1);
        let text = run_end(Class::Blank, s, pos + 1);
        lemma_run_end_bounds(Class::Line, s, text);
    }
    lemma_run_end_bounds(Class::Digit, s, pos);
    let digits = run_end(Class::Digit, s, pos);
    if ahead(s, digits, '.') {
        lemma_run_end_bounds(Class::Blank, s, digits + 1);
        let text = run_end(Class::Blank, s, digits + 1);
        lemma_run_end_bounds(Class::Line, s, text);
    }
}

/// A line of a group is never empty and never runs past the text.
pub proof fn lemma_line_advances(group: Group, s: Seq<char>, pos: int)
    requires
        0 <= pos <= s.len(),
    ensures
        advances(line_at(group, s, pos), s, pos),
{
    lemma_items_advance(s, pos);
    if ahead(s, pos, '>') {
        lemma_inlines_bounds(s, pos + 1, Seq::empty());
    }
    if pos < s.len() && !starts_block(s, pos) {
        lemma_blank_advances(s, pos);
        lemma_inlines_bounds(s, pos, Seq::empty());
    }
}

/// The lines of a group end inside the text; none of those found before is
/// lost, and a line at `pos` adds one.
pub proof fn lemma_lines_bounds(group: Group, s: Seq<char>, pos: int, acc: Seq<Tree>)
    requires
        0 <= pos <= s.len(),
    ensures
        pos <= lines(group, s, pos, acc).1 <= s.len(),
        lines(group, s, pos, acc).0.len() >= acc.len(),
        lines(group, s, pos, acc).0.len() > acc.len() ==> pos < lines(group, s, pos, acc).1,
        line_at(group, s, pos) is Some ==> lines(group, s, pos, acc).0.len() > acc.len(),
    decreases s.len() - pos,
{
    lemma_line_advances(group, s, pos);
    match line_at(group, s, pos) {
        Some((t, e)) => {
            lemma_lines_bounds(group, s, e, acc.push(t));
        },
        None => {},
    }
}

/// Where the text has not ended a block starts, is not empty and does not
/// run past the text.
pub proof fn lemma_block_advances(s: Seq<char>, pos: int)
    requires
        0 <= pos < s.len(),
    ensures
        block_at(s, pos) matches Some((_, e)) && pos < e <= s.len(),
{
    lemma_heading_advances(s, pos);
    lemma_break_advances(s, pos);
    lemma_fence_advances(s, pos);
    lemma_blank_advances(s, pos);
    lemma_lines_bounds(Group::Quote, s, pos, Seq::empty());
    lemma_lines_bounds(Group::Unordered, s, pos, Seq::empty());
    lemma_lines_bounds(Group::Ordered, s, pos, Seq::empty());
    lemma_lines_bounds(Group::Paragraph, s, pos, Seq::empty());
}

/// The blocks from any index on reach the end of the text.
pub proof fn lemma_blocks_reach_end(s: Seq<char>, pos: int, acc: Seq<Tree>)
    requires
        0 <= pos <= s.len(),
    ensures
        blocks(s, pos, acc).1 == s.len(),
    decreases s.len() - pos,
{
    if pos < s.len() {
        lemma_block_advances(s, pos);
        match block_at(s, pos) {
            Some((t, e)) => {
                lemma_blocks_reach_end(s, e, acc.push(t));
            },
            None => {},
        }
    }
}

/// Every text is a document: whatever it holds, the grammar matches all of it.
pub proof fn lemma_every_text_parses(s: Seq<char>)
    ensures
        document_at(s, 0) is Some,
{
    lemma_blocks_reach_end(s, 0, Seq::empty());
}

/// Every inline element that the grammar builds has what its template needs.
pub proof fn lemma_inline_renders(s: Seq<char>, pos: int)
    ensures
        inline_at(s, pos) matches Some((t, _)) ==> inline_html(t) is Ok,
{
}

/// The inline elements of a line all render, if those found before do.
pub proof fn lemma_inlines_render(s: Seq<char>, pos: int, acc: Seq<Tree>)
    requires
        forall|i: int| 0 <= i < acc.len() ==> inline_html(#[trigger] acc[i]) is Ok,
    ensures
        forall|i: int|
            0 <= i < inlines(s, pos, acc).0.len() ==> inline_html(
                #[trigger] inlines(s, pos, acc).0[i],
            ) is Ok,
    decreases s.len() - pos,
{
    lemma_inline_renders(s, pos);
    match inline_at(s, pos) {
        Some((t, e)) => {
            if pos < e <= s.len() {
                lemma_inlines_render(s, e, acc.push(t));
            }
        },
        None => {},
    }
}

/// Children that all render give a whole that renders.
pub proof fn lemma_parts_render(part: Part, ts: Seq<Tree>, sep: Seq<char>)
    requires
        forall|i: int| 0 <= i < ts.len() ==> part_html(part, #[trigger] ts[i]) is Ok,
    ensures
        parts_html(part, ts, sep) is Ok,
    decreases ts.len(),
{
    if ts.len() > 0 {
        lemma_parts_render(part, ts.drop_last(), sep);
    }
}

/// How the lines of a group are rendered.
pub open spec fn part_of(group: Group) -> Part {
    match group {
        Group::Quote => Part::Quoted,
        Group::Unordered => Part::Item,
        Group::Ordered => Part::Item,
        Group::Paragraph => Part::Line,
    }
}

/// Every line that the grammar builds renders.
pub proof fn lemma_line_renders(group: Group, s: Seq<char>, pos: int)
    ensures
        line_at(group, s, pos) matches Some((t, _)) ==> part_html(part_of(group), t) is Ok,
{
    match group {
        Group::Quote => {
            let items = inlines(s, pos + 1, Seq::empty()).0;
            lemma_inlines_render(s, pos + 1, Seq::empty());
            lemma_parts_render(Part::Inline, items, Seq::empty());
            if let Some((t, _)) = line_at(group, s, pos) {
                if t.children.len() > 0 {
                    assert(node_html(t.children[0]) == parts_html(
                        Part::Inline,
                        items,
                        Seq::empty(),
                    ));
                }
            }
        },
        Group::Paragraph => {
            let items = inlines(s, pos, Seq::empty()).0;
            lemma_inlines_render(s, pos, Seq::empty());
            lemma_parts_render(Part::Inline, items, Seq::empty());
        },
        _ => {},
    }
}

/// The lines of a group all render, if those found before do.
pub proof fn lemma_lines_render(group: Group, s: Seq<char>, pos: int, acc: Seq<Tree>)
    requires
        forall|i: int| 0 <= i < acc.len() ==> part_html(part_of(group), #[trigger] acc[i]) is Ok,
    ensures
        forall|i: int|
            0 <= i < lines(group, s, pos, acc).0.len() ==> part_html(
                part_of(group),
                #[trigger] lines(group, s, pos, acc).0[i],
            ) is Ok,
    decreases s.len() - pos,
{
    lemma_line_renders(group, s, pos);
    match line_at(group, s, pos) {
        Some((t, e)) => {
            if pos < e <= s.len() {
                lemma_lines_render(group, s, e, acc.push(t));
            }
        },
        None => {},
    }
}

/// Every block that the grammar builds renders.
pub proof fn lemma_content_renders(s: Seq<char>, pos: int)
    ensures
        content_at(s, pos) matches Some((t, _)) ==> node_html(t) is Ok,
{
    lemma_lines_render(Group::Quote, s, pos, Seq::empty());
    lemma_parts_render(Part::Quoted, lines(Group::Quote, s, pos, Seq::empty()).0, "\n"@);
    lemma_lines_render(Group::Unordered, s, pos, Seq::empty());
    lemma_parts_render(Part::Item, lines(Group::Unordered, s, pos, Seq::empty()).0, "\n"@);
    lemma_lines_render(Group::Ordered, s, pos, Seq::empty());
    lemma_parts_render(Part::Item, lines(Group::Ordered, s, pos, Seq::empty()).0, "\n"@);
    lemma_lines_render(Group::Paragraph, s, pos, Seq::empty());
    lemma_parts_render(Part::Line, lines(Group::Paragraph, s, pos, Seq::empty()).0, Seq::empty());
}

/// Every top-level block that the grammar builds renders, and is no
/// end-of-input marker.
pub proof fn lemma_block_renders(s: Seq<char>, pos: int)
    ensures
        block_at(s, pos) matches Some((t, _)) ==> is_block(t),
{
    lemma_content_renders(s, pos);
    if let Some((t, _)) = block_at(s, pos) {
        assert(node_html(t) == node_html(t.children[0]));
    }
}

/// A node that renders as a block and is no end-of-input marker.
pub open spec fn is_block(t: Tree) -> bool {
    node_html(t) is Ok && t.rule != Rule::Eoi
}

/// The blocks of a text all render, if those found before do.
pub proof fn lemma_blocks_render(s: Seq<char>, pos: int, acc: Seq<Tree>)
    requires
        forall|i: int| 0 <= i < acc.len() ==> is_block(#[trigger] acc[i]),
    ensures
        forall|i: int|
            0 <= i < blocks(s, pos, acc).0.len() ==> is_block(#[trigger] blocks(s, pos, acc).0[i]),
    decreases s.len() - pos,
{
    lemma_block_renders(s, pos);
    match block_at(s, pos) {
        Some((t, e)) => {
            if pos < e <= s.len() {
                assert(is_block(t));
                lemma_blocks_render(s, e, acc.push(t));
                assert(blocks(s, pos, acc) == blocks(s, e, acc.push(t)));
            } else {
                assert(blocks(s, pos, acc) == (acc, pos));
            }
        },
        None => {
            assert(blocks(s, pos, acc) == (acc, pos));
        },
    }
}

/// Blocks that all render give as many strings as there are blocks.
pub proof fn lemma_each_renders(ts: Seq<Tree>)
    requires
        forall|i: int| 0 <= i < ts.len() ==> is_block(#[trigger] ts[i]),
    ensures
        blocks_html(ts) matches Ok(v) && v.len() == ts.len(),
    decreases ts.len(),
{
    if ts.len() > 0 {
        lemma_each_renders(ts.drop_last());
    }
}

/// Every text converts: whatever it holds, each block of its document
/// renders, and the result has one string for each block.
pub proof fn lemma_every_text_converts(s: Seq<char>)
    ensures
        html_of(s) matches Ok(v) && v.len() == blocks(s, 0, Seq::empty()).0.len(),
{
    lemma_every_text_parses(s);
    lemma_blocks_render(s, 0, Seq::empty());
    let items = blocks(s, 0, Seq::empty()).0;
    let end = blocks(s, 0, Seq::empty()).1;
    lemma_each_renders(items);
    let all = items.push(leaf(Rule::Eoi, s, end, end));
    assert(all.drop_last() =~= items);
}

} // verus!
