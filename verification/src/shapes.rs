//! What texts of a given shape convert to.

use vstd::prelude::*;
use crate::block::{block_at, blocks, content_at, document_at, heading_at, heading_rule};
use crate::chars::{is_line_break, is_space};
use crate::convert::{blocks_html, html_of};
use crate::error::Failure;
use crate::escape::escaped;
use crate::render::{heading_html, heading_text, kept_end, node_html, trimmed};
use crate::scan::{lemma_run_stops, run_end, Class};
use crate::tree::{branch, leaf, Rule, Tree};

verus! {

/// A heading line: `level` times `#`, one space, and the text.
pub open spec fn heading_line(level: int, text: Seq<char>) -> Seq<char> {
    Seq::new(level as nat, |i: int| '#') + seq![' '] + text
}

/// The element of a heading of the given level around `inner`.
pub open spec fn heading_element(level: int, inner: Seq<char>) -> Seq<char> {
    if level == 1 {
        "<h1>"@ + inner + "</h1>"@
    } else if level == 2 {
        "<h2>"@ + inner + "</h2>"@
    } else {
        "<h3>"@ + inner + "</h3>"@
    }
}

/// One to three `#`, a space and a text on one line convert to the heading
/// of that level around the escaped text, and to nothing else. The text is
/// not empty and neither starts nor ends with white space.
pub proof fn lemma_heading_line_converts(level: int, text: Seq<char>)
    requires
        1 <= level <= 3,
        text.len() > 0,
        forall|i: int| 0 <= i < text.len() ==> !is_line_break(text[i]),
        !is_space(text[0]),
        !is_space(text.last()),
    ensures
        html_of(heading_line(level, text)) == Ok::<Seq<Seq<char>>, Failure>(
            seq![heading_element(level, escaped(text))],
        ),
{
    let s = heading_line(level, text);
    let n = s.len() as int;
    assert(n == level + 1 + text.len());
    assert forall|i: int| 0 <= i < level implies s[i] == '#' by {}
    assert(s[level] == ' ');
    assert forall|i: int| level + 1 <= i < n implies s[i] == text[i - level - 1] by {}
    assert(s[level + 1] == text[0]);
    assert(s[n - 1] == text.last());
    lemma_run_stops(Class::Repeat('#'), s, 0, level);
    lemma_run_stops(Class::Blank, s, level, level + 1);
    lemma_run_stops(Class::Line, s, level + 1, n);
    lemma_run_stops(Class::Space, s, level, level + 1);
    let h = leaf(heading_rule(level), s, 0, n);
    assert(heading_at(s, 0) == Some((h, n)));
    assert(content_at(s, 0) == Some((h, n)));
    let b = branch(Rule::DocumentBlock, s, 0, n, seq![h]);
    assert(block_at(s, 0) == Some((b, n)));
    let none = Seq::<Tree>::empty();
    assert(blocks(s, n, none.push(b)) == (none.push(b), n));
    assert(blocks(s, 0, none) == (none.push(b), n));
    let all = none.push(b).push(leaf(Rule::Eoi, s, n, n));
    assert(document_at(s, 0) == Some((branch(Rule::DocumentStructure, s, 0, n, all), n)));
    assert(s.subrange(0, n) =~= s);
    assert(kept_end(s, level + 1, n) == n);
    assert(trimmed(s, level) =~= text);
    assert(heading_text(h.text) == text);
    assert(heading_html(h) == Ok::<Seq<char>, Rule>(heading_element(level, escaped(text))));
    assert(node_html(h) == heading_html(h));
    assert(node_html(b) == node_html(b.children[0]));
    assert(all.drop_last() =~= none.push(b));
    assert(none.push(b).drop_last() =~= none);
    assert(blocks_html(none.push(b)) == Ok::<Seq<Seq<char>>, Rule>(
        seq![heading_element(level, escaped(text))],
    )) by {
        assert(blocks_html(none) == Ok::<Seq<Seq<char>>, Rule>(Seq::empty()));
        assert(Seq::<Seq<char>>::empty().push(heading_element(level, escaped(text)))
            =~= seq![heading_element(level, escaped(text))]);
    }
    assert(blocks_html(all) == blocks_html(none.push(b)));
}

} // verus!
