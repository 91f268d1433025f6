//! The renderer: from a parse tree to HTML.
//!
//! Every kind of block and of inline element has a fixed template. Text
//! taken from the document is escaped exactly once; the targets of links
//! and images and the language tag of a code fence are copied as they are.

use vstd::prelude::*;
use vstd::string::StringExecFns;
use crate::chars::{is_space, space};
use crate::error::{Failure, MarkdownError};
use crate::escape::{escape_range, escaped, is_safe, lemma_escaped_is_safe};
use crate::scan::{run_end, scan, Class};
use crate::text::{chars_of, string_of};
use crate::tree::{lemma_trees, lemma_view, trees, Node, Rule, Tree};

verus! {

/// The end of `s[from..to]` once the white space at its end is dropped.
pub open spec fn kept_end(s: Seq<char>, from: int, to: int) -> int
    decreases to - from,
{
    if from < to && 0 < to <= s.len() && is_space(s[to - 1]) {
        kept_end(s, from, to - 1)
    } else {
        to
    }
}

/// The text from index `from` on, without the white space at its two ends.
pub open spec fn trimmed(s: Seq<char>, from: int) -> Seq<char> {
    let start = run_end(Class::Space, s, from);
    s.subrange(start, kept_end(s, start, s.len() as int))
}

/// The text of a heading: what follows the `#` that open it, trimmed.
pub open spec fn heading_text(t: Seq<char>) -> Seq<char> {
    trimmed(t, run_end(Class::Repeat('#'), t, 0))
}

/// The text of a list item: what follows its first white space character,
/// trimmed; nothing where it holds no white space.
pub open spec fn item_text(t: Seq<char>) -> Seq<char> {
    let gap = run_end(Class::Word, t, 0);
    if gap < t.len() {
        trimmed(t, gap + 1)
    } else {
        Seq::empty()
    }
}

/// The text of an inline code element: what stands between its two
/// backticks; nothing where one of them is missing.
pub open spec fn code_text(t: Seq<char>) -> Seq<char> {
    if t.len() >= 2 && t[0] == '`' && t.last() == '`' {
        t.subrange(1, t.len() - 1)
    } else {
        Seq::empty()
    }
}

/// `inner` between `open` and `close`, where there is an `inner`.
pub open spec fn wrap(open: Seq<char>, inner: Result<Seq<char>, Rule>, close: Seq<char>) -> Result<
    Seq<char>,
    Rule,
> {
    match inner {
        Ok(h) => Ok(open + h + close),
        Err(r) => Err(r),
    }
}

/// A heading node as `<hN>text</hN>`; any other node is refused.
pub open spec fn heading_html(t: Tree) -> Result<Seq<char>, Rule> {
    let inner = escaped(heading_text(t.text));
    match t.rule {
        Rule::H1Heading => Ok("<h1>"@ + inner + "</h1>"@),
        Rule::H2Heading => Ok("<h2>"@ + inner + "</h2>"@),
        Rule::H3Heading => Ok("<h3>"@ + inner + "</h3>"@),
        _ => Err(t.rule),
    }
}

/// A list item as `<li>text</li>`.
pub open spec fn item_html(t: Tree) -> Seq<char> {
    "<li>"@ + escaped(item_text(t.text)) + "</li>"@
}

/// A code fence as `<pre><code>body</code></pre>`. The language tag is the
/// first child where that is a `LanguageSpec`, and the body the child after
/// it; else the first child is the body. A tag that is not empty once
/// trimmed gives the element its class; a missing body is empty.
pub open spec fn fence_html(t: Tree) -> Seq<char> {
    let tagged = t.children.len() > 0 && t.children[0].rule == Rule::LanguageSpec;
    let tag = if tagged {
        trimmed(t.children[0].text, 0)
    } else {
        Seq::empty()
    };
    let at: int = if tagged {
        1
    } else {
        0
    };
    let body = if at < t.children.len() {
        escaped(t.children[at].text)
    } else {
        Seq::empty()
    };
    let open = if tag.len() > 0 {
        "<pre><code class=\"language-"@ + tag + "\">"@
    } else {
        "<pre><code>"@
    };
    open + body + "</code></pre>"@
}

/// The escaped text of the first child between `open` and `close`; a node
/// without children is refused.
pub open spec fn content_html(t: Tree, open: Seq<char>, close: Seq<char>) -> Result<
    Seq<char>,
    Rule,
> {
    if t.children.len() > 0 {
        Ok(open + escaped(t.children[0].text) + close)
    } else {
        Err(t.rule)
    }
}

/// One inline element. A link or an image takes its text from its first
/// child and its target from its second, and is refused with fewer; bold,
/// italic, underline, strikethrough and the escape sequence take their
/// text from their first child, and are refused without one; plain text
/// gives its own text, escaped. A node of any other rule is refused.
pub open spec fn inline_html(t: Tree) -> Result<Seq<char>, Rule> {
    match t.rule {
        Rule::InlineCode => Ok("<code>"@ + escaped(code_text(t.text)) + "</code>"@),
        Rule::Link => if t.children.len() >= 2 {
            Ok(
                "<a href=\""@ + t.children[1].text + "\">"@ + escaped(t.children[0].text) + "</a>"@,
            )
        } else {
            Err(t.rule)
        },
        Rule::Image => if t.children.len() >= 2 {
            Ok(
                "<img src=\""@ + t.children[1].text + "\" alt=\""@ + escaped(t.children[0].text)
                    + "\">"@,
            )
        } else {
            Err(t.rule)
        },
        Rule::BoldFormatting => content_html(t, "<strong>"@, "</strong>"@),
        Rule::ItalicFormatting => content_html(t, "<em>"@, "</em>"@),
        Rule::StrikethroughFormatting => content_html(t, "<del>"@, "</del>"@),
        Rule::UnderlineFormatting => content_html(t, "<u>"@, "</u>"@),
        Rule::EscapeSequence => if t.children.len() > 0 {
            Ok(escaped(t.children[0].text))
        } else {
            Err(t.rule)
        },
        Rule::PlainText => Ok(escaped(t.text)),
        _ => Err(t.rule),
    }
}

/// How the children of a block are rendered.
#[derive(Clone, Copy, Debug)]
pub enum Part {
    /// As an inline element.
    Inline,
    /// As a line of inline elements.
    Line,
    /// As a list item.
    Item,
    /// As a line of a quote.
    Quoted,
}

/// One node as a block. A wrapper gives what it wraps; a paragraph, a quote
/// and a list give their children between their tags; a node of any rule
/// without a template is refused.
pub open spec fn node_html(t: Tree) -> Result<Seq<char>, Rule>
    decreases t, 1int,
{
    match t.rule {
        Rule::DocumentBlock => if t.children.len() > 0 {
            node_html(t.children[0])
        } else {
            Err(t.rule)
        },
        Rule::DocumentHeading => if t.children.len() > 0 {
            heading_html(t.children[0])
        } else {
            Err(t.rule)
        },
        Rule::H1Heading | Rule::H2Heading | Rule::H3Heading => heading_html(t),
        Rule::DocumentParagraph => wrap(
            "<p>"@,
            parts_html(Part::Line, t.children, Seq::empty()),
            "</p>"@,
        ),
        Rule::DocumentQuote => wrap(
            "<blockquote>"@,
            parts_html(Part::Quoted, t.children, "\n"@),
            "</blockquote>"@,
        ),
        Rule::QuoteLine => quoted_html(t),
        Rule::ParagraphText => parts_html(Part::Inline, t.children, Seq::empty()),
        Rule::DocumentUnorderedList => wrap(
            "<ul>"@,
            parts_html(Part::Item, t.children, "\n"@),
            "</ul>"@,
        ),
        Rule::DocumentOrderedList => wrap(
            "<ol>"@,
            parts_html(Part::Item, t.children, "\n"@),
            "</ol>"@,
        ),
        Rule::UnorderedListItem | Rule::OrderedListItem => Ok(item_html(t)),
        Rule::CodeFence => Ok(fence_html(t)),
        Rule::ThematicBreak => Ok("<hr>"@),
        Rule::BlankLine => Ok("<br>"@),
        Rule::Eoi => Ok(Seq::empty()),
        _ => Err(t.rule),
    }
}

/// One line of a quote: its first child, rendered as a block, in a `<p>`
/// element; an empty `<p>` element where it has no child.
pub open spec fn quoted_html(t: Tree) -> Result<Seq<char>, Rule>
    decreases t, 0int,
{
    if t.children.len() > 0 {
        wrap("<p>"@, node_html(t.children[0]), "</p>"@)
    } else {
        Ok("<p></p>"@)
    }
}

/// One child of a block.
pub open spec fn part_html(part: Part, t: Tree) -> Result<Seq<char>, Rule>
    decreases t, 1int,
{
    match part {
        Part::Inline => inline_html(t),
        Part::Line => parts_html(Part::Inline, t.children, Seq::empty()),
        Part::Item => Ok(item_html(t)),
        Part::Quoted => quoted_html(t),
    }
}

/// The children of a block, in order, with `sep` between them. The first
/// child that is refused makes the whole fail.
pub open spec fn parts_html(part: Part, ts: Seq<Tree>, sep: Seq<char>) -> Result<Seq<char>, Rule>
    decreases ts, 0int,
{
    if ts.len() == 0 {
        Ok(Seq::empty())
    } else {
        match parts_html(part, ts.drop_last(), sep) {
            Err(r) => Err(r),
            Ok(h) => match part_html(part, ts.last()) {
                Err(r) => Err(r),
                Ok(x) => Ok(
                    if ts.len() == 1 {
                        x
                    } else {
                        h + sep + x
                    },
                ),
            },
        }
    }
}

/// What the renderer returns agrees with what the templates say: the same
/// text, or the refusal of the same rule.
pub open spec fn renders(r: Result<String, MarkdownError>, h: Result<Seq<char>, Rule>) -> bool {
    match r {
        Ok(s) => h == Ok::<Seq<char>, Rule>(s@),
        Err(e) => h is Err && e@ == Failure::Node(h->Err_0),
    }
}

/// The bounds of `src[from..]` without the white space at its two ends.
pub fn trim_from(src: &[char], from: usize) -> (r: (usize, usize))
    requires
        from <= src@.len(),
    ensures
        from <= r.0 <= r.1 <= src@.len(),
        src@.subrange(r.0 as int, r.1 as int) == trimmed(src@, from as int),
{
    let start: usize = scan(Class::Space, src, from);
    let mut end: usize = src.len();
    while start < end && space(src[end - 1])
        invariant
            start <= end <= src@.len(),
            kept_end(src@, start as int, end as int) == kept_end(
                src@,
                start as int,
                src@.len() as int,
            ),
        decreases end,
    {
        end -= 1;
    }
    (start, end)
}

/// `inner` between `open` and `close`.
pub fn enclose(open: &str, inner: &str, close: &str) -> (r: String)
    ensures
        r@ == open@ + inner@ + close@,
{
    let mut r = String::from_str(open);
    r.append(inner);
    r.append(close);
    r
}

pub fn render_heading(node: &Node) -> (r: Result<String, MarkdownError>)
    ensures
        renders(r, heading_html(node@)),
{
    proof {
        lemma_view(*node);
    }
    let src = chars_of(node.text.as_str());
    let marks: usize = scan(Class::Repeat('#'), src.as_slice(), 0);
    let (from, to) = trim_from(src.as_slice(), marks);
    let inner = escape_range(src.as_slice(), from, to);
    match node.rule {
        Rule::H1Heading => Ok(enclose("<h1>", inner.as_str(), "</h1>")),
        Rule::H2Heading => Ok(enclose("<h2>", inner.as_str(), "</h2>")),
        Rule::H3Heading => Ok(enclose("<h3>", inner.as_str(), "</h3>")),
        _ => Err(MarkdownError::UnknownOrMalformedNode(node.rule)),
    }
}

pub fn render_item(node: &Node) -> (r: String)
    ensures
        r@ == item_html(node@),
{
    proof {
        lemma_view(*node);
    }
    let src = chars_of(node.text.as_str());
    let gap: usize = scan(Class::Word, src.as_slice(), 0);
    let inner = if gap < src.len() {
        let (from, to) = trim_from(src.as_slice(), gap + 1);
        escape_range(src.as_slice(), from, to)
    } else {
        String::new()
    };
    assert(escaped(Seq::<char>::empty()) == Seq::<char>::empty());
    enclose("<li>", inner.as_str(), "</li>")
}

/// The escaped text of a node.
pub fn escape_node(node: &Node) -> (r: String)
    ensures
        r@ == escaped(node@.text),
{
    proof {
        lemma_view(*node);
    }
    let src = chars_of(node.text.as_str());
    assert(src@.subrange(0, src@.len() as int) =~= src@);
    escape_range(src.as_slice(), 0, src.len())
}

pub fn render_fence(node: &Node) -> (r: String)
    ensures
        r@ == fence_html(node@),
{
    proof {
        lemma_view(*node);
    }
    let tagged: bool = node.children.len() > 0 && node.children[0].rule == Rule::LanguageSpec;
    let at: usize = if tagged {
        1
    } else {
        0
    };
    let body = if at < node.children.len() {
        escape_node(&node.children[at])
    } else {
        String::new()
    };
    let mut r = String::from_str("<pre><code");
    let mut classed: bool = false;
    if tagged {
        let src = chars_of(node.children[0].text.as_str());
        let (from, to) = trim_from(src.as_slice(), 0);
        if from < to {
            let tag = string_of(src.as_slice(), from, to);
            r = enclose("<pre><code class=\"language-", tag.as_str(), "\">");
            classed = true;
        }
    }
    if !classed {
        r = String::from_str("<pre><code>");
    }
    r.append(body.as_str());
    r.append("</code></pre>");
    r
}

pub fn render_content(node: &Node, open: &str, close: &str) -> (r: Result<String, MarkdownError>)
    ensures
        renders(r, content_html(node@, open@, close@)),
{
    proof {
        lemma_view(*node);
    }
    if node.children.len() > 0 {
        let inner = escape_node(&node.children[0]);
        Ok(enclose(open, inner.as_str(), close))
    } else {
        Err(MarkdownError::UnknownOrMalformedNode(node.rule))
    }
}

pub fn render_code(node: &Node) -> (r: String)
    ensures
        r@ == "<code>"@ + escaped(code_text(node@.text)) + "</code>"@,
{
    proof {
        lemma_view(*node);
    }
    let src = chars_of(node.text.as_str());
    let n: usize = src.len();
    let inner = if n >= 2 && src[0] == '`' && src[n - 1] == '`' {
        escape_range(src.as_slice(), 1, n - 1)
    } else {
        String::new()
    };
    enclose("<code>", inner.as_str(), "</code>")
}

pub fn render_inline(node: &Node) -> (r: Result<String, MarkdownError>)
    ensures
        renders(r, inline_html(node@)),
{
    proof {
        lemma_view(*node);
    }
    match node.rule {
        Rule::InlineCode => Ok(render_code(node)),
        Rule::Link => {
            if node.children.len() >= 2 {
                let text = escape_node(&node.children[0]);
                let mut r = enclose("<a href=\"", node.children[1].text.as_str(), "\">");
                r.append(text.as_str());
                r.append("</a>");
                Ok(r)
            } else {
                Err(MarkdownError::UnknownOrMalformedNode(node.rule))
            }
        },
        Rule::Image => {
            if node.children.len() >= 2 {
                let alt = escape_node(&node.children[0]);
                let mut r = enclose("<img src=\"", node.children[1].text.as_str(), "\" alt=\"");
                r.append(alt.as_str());
                r.append("\">");
                Ok(r)
            } else {
                Err(MarkdownError::UnknownOrMalformedNode(node.rule))
            }
        },
        Rule::BoldFormatting => render_content(node, "<strong>", "</strong>"),
        Rule::ItalicFormatting => render_content(node, "<em>", "</em>"),
        Rule::StrikethroughFormatting => render_content(node, "<del>", "</del>"),
        Rule::UnderlineFormatting => render_content(node, "<u>", "</u>"),
        Rule::EscapeSequence => {
            if node.children.len() > 0 {
                Ok(escape_node(&node.children[0]))
            } else {
                Err(MarkdownError::UnknownOrMalformedNode(node.rule))
            }
        },
        Rule::PlainText => Ok(escape_node(node)),
        _ => Err(MarkdownError::UnknownOrMalformedNode(node.rule)),
    }
}

/// `inner` between `open` and `close`, where there is an `inner`.
pub fn enclose_result(open: &str, inner: Result<String, MarkdownError>, close: &str) -> (r: Result<
    String,
    MarkdownError,
>)
    ensures
        forall|h: Result<Seq<char>, Rule>| renders(inner, h) ==> renders(r, wrap(open@, h, close@)),
{
    match inner {
        Ok(h) => Ok(enclose(open, h.as_str(), close)),
        Err(e) => Err(e),
    }
}

/// Converts one node of the parse tree to HTML.
pub fn convert_to_html(node: &Node) -> (r: Result<String, MarkdownError>)
    ensures
        renders(r, node_html(node@)),
    decreases node, 1int,
{
    proof {
        lemma_view(*node);
        reveal_strlit("");
        assert(""@ =~= Seq::<char>::empty());
    }
    match node.rule {
        Rule::DocumentBlock => {
            if node.children.len() > 0 {
                convert_to_html(&node.children[0])
            } else {
                Err(MarkdownError::UnknownOrMalformedNode(node.rule))
            }
        },
        Rule::DocumentHeading => {
            if node.children.len() > 0 {
                render_heading(&node.children[0])
            } else {
                Err(MarkdownError::UnknownOrMalformedNode(node.rule))
            }
        },
        Rule::H1Heading | Rule::H2Heading | Rule::H3Heading => render_heading(node),
        Rule::DocumentParagraph => enclose_result(
            "<p>",
            render_parts(Part::Line, &node.children, ""),
            "</p>",
        ),
        Rule::DocumentQuote => enclose_result(
            "<blockquote>",
            render_parts(Part::Quoted, &node.children, "\n"),
            "</blockquote>",
        ),
        Rule::QuoteLine => render_quoted(node),
        Rule::ParagraphText => render_parts(Part::Inline, &node.children, ""),
        Rule::DocumentUnorderedList => enclose_result(
            "<ul>",
            render_parts(Part::Item, &node.children, "\n"),
            "</ul>",
        ),
        Rule::DocumentOrderedList => enclose_result(
            "<ol>",
            render_parts(Part::Item, &node.children, "\n"),
            "</ol>",
        ),
        Rule::UnorderedListItem | Rule::OrderedListItem => Ok(render_item(node)),
        Rule::CodeFence => Ok(render_fence(node)),
        Rule::ThematicBreak => Ok(String::from_str("<hr>")),
        Rule::BlankLine => Ok(String::from_str("<br>")),
        Rule::Eoi => Ok(String::new()),
        _ => Err(MarkdownError::UnknownOrMalformedNode(node.rule)),
    }
}

/// Converts one line of a quote.
pub fn render_quoted(node: &Node) -> (r: Result<String, MarkdownError>)
    ensures
        renders(r, quoted_html(node@)),
    decreases node, 0int,
{
    proof {
        lemma_view(*node);
    }
    if node.children.len() > 0 {
        enclose_result("<p>", convert_to_html(&node.children[0]), "</p>")
    } else {
        Ok(String::from_str("<p></p>"))
    }
}

/// Converts one child of a block.
pub fn render_part(part: Part, node: &Node) -> (r: Result<String, MarkdownError>)
    ensures
        renders(r, part_html(part, node@)),
    decreases node, 1int,
{
    proof {
        lemma_view(*node);
        reveal_strlit("");
        assert(""@ =~= Seq::<char>::empty());
    }
    match part {
        Part::Inline => render_inline(node),
        Part::Line => render_parts(Part::Inline, &node.children, ""),
        Part::Item => Ok(render_item(node)),
        Part::Quoted => render_quoted(node),
    }
}

/// Converts the children of a block, with `sep` between them.
pub fn render_parts(part: Part, nodes: &Vec<Node>, sep: &str) -> (r: Result<String, MarkdownError>)
    ensures
        renders(r, parts_html(part, trees(nodes@), sep@)),
    decreases nodes, 0int,
{
    proof {
        lemma_trees(nodes@);
    }
    let mut out = String::new();
    let mut i: usize = 0;
    assert(trees(nodes@).take(0) =~= Seq::empty());
    while i < nodes.len()
        invariant
            i <= nodes@.len(),
            parts_html(part, trees(nodes@).take(i as int), sep@) == Ok::<Seq<char>, Rule>(out@),
        decreases nodes@.len() - i,
    {
        let ghost before = trees(nodes@).take(i as int);
        let ghost after = trees(nodes@).take(i + 1);
        assert(after.drop_last() =~= before);
        assert(after.last() == nodes@[i as int]@);
        match render_part(part, &nodes[i]) {
            Ok(x) => {
                if i > 0 {
                    out.append(sep);
                    out.append(x.as_str());
                } else {
                    assert(before.len() == 0);
                    out = x;
                }
            },
            Err(e) => {
                proof {
                    lemma_parts_fail(part, trees(nodes@), sep@, i + 1);
                }
                return Err(e);
            },
        }
        i += 1;
    }
    assert(trees(nodes@).take(i as int) =~= trees(nodes@));
    Ok(out)
}

/// Once the first `n` children fail, all of them fail, and with the same rule.
pub proof fn lemma_parts_fail(part: Part, ts: Seq<Tree>, sep: Seq<char>, n: int)
    requires
        0 <= n <= ts.len(),
        parts_html(part, ts.take(n), sep) is Err,
    ensures
        parts_html(part, ts, sep) == parts_html(part, ts.take(n), sep),
    decreases ts.len() - n,
{
    if n < ts.len() {
        assert(ts.take(n + 1).drop_last() =~= ts.take(n));
        lemma_parts_fail(part, ts, sep, n + 1);
    } else {
        assert(ts.take(n) =~= ts);
    }
}

/// Plain text is rendered safe: whatever a node of plain text holds, what
/// it renders to holds no angle bracket and no quote, and an `&` only at
/// the start of an entity.
pub proof fn lemma_plain_text_is_safe(t: Tree)
    requires
        t.rule == Rule::PlainText,
    ensures
        inline_html(t) matches Ok(h) && h == escaped(t.text) && is_safe(h),
{
    lemma_escaped_is_safe(t.text);
}

/// The description of an image cannot end its attribute: what stands
/// between `alt="` and the closing `">` is the escaped description, which
/// holds no quote and no angle bracket.
pub proof fn lemma_description_is_safe(t: Tree)
    requires
        t.rule == Rule::Image,
        t.children.len() >= 2,
    ensures
        inline_html(t) == Ok::<Seq<char>, Rule>(
            "<img src=\""@ + t.children[1].text + "\" alt=\""@ + escaped(t.children[0].text)
                + "\">"@,
        ),
        is_safe(escaped(t.children[0].text)),
{
    lemma_escaped_is_safe(t.children[0].text);
}

} // verus!
