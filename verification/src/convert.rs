//! From a text to the HTML of its blocks.

use vstd::prelude::*;
use crate::block::{document_at, parse_document};
use crate::error::{expected, Failure, MarkdownError};
use crate::render::{convert_to_html, node_html, renders};
use crate::text::chars_of;
use crate::totality::{lemma_every_text_converts, lemma_every_text_parses};
use crate::tree::{lemma_trees, lemma_view, trees, Node, Rule, Tree};

verus! {

/// The HTML of each of the given nodes but the end-of-input marker, in
/// order. The first node that is refused makes the whole fail.
pub open spec fn blocks_html(ts: Seq<Tree>) -> Result<Seq<Seq<char>>, Rule>
    decreases ts.len(),
{
    if ts.len() == 0 {
        Ok(Seq::empty())
    } else {
        match blocks_html(ts.drop_last()) {
            Err(r) => Err(r),
            Ok(v) => if ts.last().rule == Rule::Eoi {
                Ok(v)
            } else {
                match node_html(ts.last()) {
                    Err(r) => Err(r),
                    Ok(h) => Ok(v.push(h)),
                }
            },
        }
    }
}

/// The HTML of a text: one string for each top-level block of its document.
pub open spec fn html_of(s: Seq<char>) -> Result<Seq<Seq<char>>, Failure> {
    match document_at(s, 0) {
        None => Err(Failure::Parse(expected(Rule::DocumentStructure))),
        Some((t, _)) => match blocks_html(t.children) {
            Ok(v) => Ok(v),
            Err(r) => Err(Failure::Node(r)),
        },
    }
}

/// Once the first `n` nodes fail, all of them fail, and with the same rule.
pub proof fn lemma_blocks_fail(ts: Seq<Tree>, n: int)
    requires
        0 <= n <= ts.len(),
        blocks_html(ts.take(n)) is Err,
    ensures
        blocks_html(ts) == blocks_html(ts.take(n)),
    decreases ts.len() - n,
{
    if n < ts.len() {
        assert(ts.take(n + 1).drop_last() =~= ts.take(n));
        lemma_blocks_fail(ts, n + 1);
    } else {
        assert(ts.take(n) =~= ts);
    }
}

/// Parses a text into its document node. Every text is a document, so the
/// result is never an error.
pub fn parse_markdown(input: &str) -> (r: Result<Node, MarkdownError>)
    ensures
        r matches Ok(node) && document_at(input@, 0) matches Some((t, _)) && node@ == t,
{
    proof {
        lemma_every_text_parses(input@);
    }
    let src = chars_of(input);
    match parse_document(src.as_slice(), 0) {
        Some((node, _)) => Ok(node),
        None => Err(MarkdownError::unmatched(Rule::DocumentStructure)),
    }
}

/// Converts each of the given nodes but the end-of-input marker.
pub fn render_blocks(nodes: &Vec<Node>) -> (r: Result<Vec<String>, MarkdownError>)
    ensures
        match r {
            Ok(v) => blocks_html(trees(nodes@)) == Ok::<Seq<Seq<char>>, Rule>(v.deep_view()),
            Err(e) => blocks_html(trees(nodes@)) is Err && e@ == Failure::Node(
                blocks_html(trees(nodes@))->Err_0,
            ),
        },
{
    proof {
        lemma_trees(nodes@);
    }
    let mut out: Vec<String> = Vec::new();
    let mut i: usize = 0;
    assert(trees(nodes@).take(0) =~= Seq::empty());
    assert(out.deep_view() =~= Seq::empty());
    while i < nodes.len()
        invariant
            i <= nodes@.len(),
            trees(nodes@).len() == nodes@.len(),
            forall|k: int| 0 <= k < nodes@.len() ==> #[trigger] trees(nodes@)[k] == nodes@[k]@,
            blocks_html(trees(nodes@).take(i as int)) == Ok::<Seq<Seq<char>>, Rule>(
                out.deep_view(),
            ),
        decreases nodes@.len() - i,
    {
        let ghost before = trees(nodes@).take(i as int);
        let ghost after = trees(nodes@).take(i + 1);
        assert(after.drop_last() =~= before);
        assert(after.last() == nodes@[i as int]@);
        proof {
            lemma_view(nodes@[i as int]);
        }
        if nodes[i].rule != Rule::Eoi {
            match convert_to_html(&nodes[i]) {
                Ok(h) => {
                    let ghost old_out = out.deep_view();
                    out.push(h);
                    assert(out.deep_view() =~= old_out.push(h@));
                },
                Err(e) => {
                    proof {
                        lemma_blocks_fail(trees(nodes@), i + 1);
                    }
                    return Err(e);
                },
            }
        }
        i += 1;
    }
    assert(trees(nodes@).take(i as int) =~= trees(nodes@));
    Ok(out)
}

/// `r` is what converting the text `s` returns: the strings of `html_of(s)`.
pub open spec fn converts(r: Result<Vec<String>, MarkdownError>, s: Seq<char>) -> bool {
    r matches Ok(v) && html_of(s) == Ok::<Seq<Seq<char>>, Failure>(v.deep_view())
}

/// Converts a text to HTML: one string for each top-level block, in order.
/// Every text converts, so the result is never an error.
pub fn str_to_html(input: &str) -> (r: Result<Vec<String>, MarkdownError>)
    ensures
        converts(r, input@),
{
    proof {
        lemma_every_text_converts(input@);
    }
    match parse_markdown(input) {
        Ok(document) => {
            proof {
                lemma_view(document);
            }
            render_blocks(&document.children)
        },
        Err(e) => Err(e),
    }
}

/// Conversion is a function of the text: two conversions of one text
/// succeed and give the same strings, character for character.
pub proof fn lemma_conversion_is_repeatable(
    first: Result<Vec<String>, MarkdownError>,
    second: Result<Vec<String>, MarkdownError>,
    s: Seq<char>,
)
    requires
        converts(first, s),
        converts(second, s),
    ensures
        first is Ok,
        second is Ok,
        first->Ok_0.deep_view() == second->Ok_0.deep_view(),
{
}

/// The document of a text spans the whole text.
pub proof fn lemma_document_spans_text(s: Seq<char>)
    ensures
        document_at(s, 0) matches Some((t, end)) && t.text == s && end == s.len()
            && t.rule == Rule::DocumentStructure,
{
    lemma_every_text_parses(s);
    assert(s.subrange(0, s.len() as int) =~= s);
}

} // verus!
