//! The parse tree: nodes tagged with the grammar rule that matched them.

use vstd::prelude::*;
use crate::text::string_of;

verus! {

/// The rules of the grammar. A node of the parse tree carries the rule that
/// matched its text.
#[derive(Clone, Copy, Debug, PartialEq, Eq, Structural)]
pub enum Rule {
    /// The whole document: its blocks, then the end-of-input marker.
    DocumentStructure,
    /// One top-level block, wrapping the node of its kind.
    DocumentBlock,
    /// A heading of any level; it stands for `H1Heading`, `H2Heading` or `H3Heading`.
    DocumentHeading,
    H1Heading,
    H2Heading,
    H3Heading,
    /// One or more consecutive lines of inline content.
    DocumentParagraph,
    /// One line of a paragraph, line break included.
    ParagraphLine,
    /// The inline content of a quote line.
    ParagraphText,
    /// One or more consecutive quote lines.
    DocumentQuote,
    /// `>` and the rest of its line.
    QuoteLine,
    DocumentUnorderedList,
    DocumentOrderedList,
    /// `-` or `*`, blanks, and the rest of the line.
    UnorderedListItem,
    /// Digits, `.`, blanks, and the rest of the line.
    OrderedListItem,
    /// A fenced code block.
    CodeFence,
    /// The language tag on the opening line of a code fence.
    LanguageSpec,
    /// The verbatim text between the two fence lines.
    CodeBody,
    /// A line of three or more `-`, `*` or `_`.
    ThematicBreak,
    /// A line that holds nothing but blanks.
    BlankLine,
    /// Bold, underline, italic or strikethrough; it stands for the node of that kind.
    TextFormatting,
    BoldFormatting,
    BoldContent,
    ItalicFormatting,
    ItalicContent,
    UnderlineFormatting,
    UnderlineContent,
    StrikethroughFormatting,
    StrikethroughContent,
    /// Text between two backticks, the backticks included.
    InlineCode,
    Link,
    LinkContent,
    LinkUrl,
    LinkChar,
    Image,
    ImageAlt,
    ImageUrl,
    ImageChar,
    UrlChar,
    /// A backslash and the punctuation character that it escapes.
    EscapeSequence,
    /// The escaped character of an escape sequence.
    Character,
    /// A run of text that holds no markup.
    PlainText,
    PlainChar,
    /// The end-of-input marker; it matches no text.
    Eoi,
}

/// A node of the parse tree: the rule that matched, the exact text it
/// matched, and the nodes of the rules matched inside it, in source order.
#[derive(Debug)]
pub struct Node {
    pub rule: Rule,
    pub text: String,
    pub children: Vec<Node>,
}

/// The mathematical value of a node.
pub struct Tree {
    pub rule: Rule,
    pub text: Seq<char>,
    pub children: Seq<Tree>,
}

/// The trees that a list of nodes stands for.
pub open spec fn trees(v: Seq<Node>) -> Seq<Tree>
    decreases v,
{
    Seq::new(
        v.len(),
        |i: int|
            if 0 <= i < v.len() {
                v[i]@
            } else {
                arbitrary()
            },
    )
}

impl View for Node {
    type V = Tree;

    open spec fn view(&self) -> Tree
        decreases self,
    {
        Tree { rule: self.rule, text: self.text@, children: trees(self.children@) }
    }
}

/// The tree of `rule` over `s[from..to]` with the given children.
pub open spec fn branch(rule: Rule, s: Seq<char>, from: int, to: int, children: Seq<Tree>) -> Tree {
    Tree { rule, text: s.subrange(from, to), children }
}

/// The childless tree of `rule` over `s[from..to]`.
pub open spec fn leaf(rule: Rule, s: Seq<char>, from: int, to: int) -> Tree {
    branch(rule, s, from, to, Seq::empty())
}

/// What a parser returns agrees with what the grammar says: the same tree
/// and the same end, or no match in both.
pub open spec fn agrees(r: Option<(Node, usize)>, m: Option<(Tree, int)>) -> bool {
    match r {
        Some((n, e)) => m == Some((n@, e as int)),
        None => m is None,
    }
}

/// The tree of a node has the node's rule and text, and the trees of its
/// children as children.
pub proof fn lemma_view(n: Node)
    ensures
        n@.rule == n.rule,
        n@.text == n.text@,
        n@.children == trees(n.children@),
        trees(n.children@).len() == n.children@.len(),
        forall|i: int| 0 <= i < n.children@.len() ==> #[trigger] trees(n.children@)[i] == n.children@[i]@,
{
}

/// The trees of a list stand at the indices of its nodes.
pub proof fn lemma_trees(v: Seq<Node>)
    ensures
        trees(v).len() == v.len(),
        forall|i: int| 0 <= i < v.len() ==> #[trigger] trees(v)[i] == v[i]@,
{
}

/// Adding a node at the end of a list adds its tree at the end of the list's trees.
pub proof fn lemma_trees_push(v: Seq<Node>, n: Node)
    ensures
        trees(v.push(n)) == trees(v).push(n@),
{
    assert(trees(v.push(n)) =~= trees(v).push(n@));
}

/// Adds `n` at the end of `v`.
pub fn push_node(v: &mut Vec<Node>, n: Node)
    ensures
        trees(final(v)@) == trees(old(v)@).push(n@),
        final(v)@ == old(v)@.push(n),
{
    proof {
        lemma_trees_push(v@, n);
    }
    v.push(n);
}

/// The list that holds `n` alone.
pub fn one(n: Node) -> (v: Vec<Node>)
    ensures
        trees(v@) == seq![n@],
{
    let mut v: Vec<Node> = Vec::new();
    assert(trees(v@) =~= Seq::empty());
    push_node(&mut v, n);
    assert(trees(v@) =~= seq![n@]);
    v
}

/// The list that holds `a`, then `b`.
pub fn two(a: Node, b: Node) -> (v: Vec<Node>)
    ensures
        trees(v@) == seq![a@, b@],
{
    let mut v: Vec<Node> = one(a);
    push_node(&mut v, b);
    assert(trees(v@) =~= seq![a@, b@]);
    v
}

impl Node {
    /// The node of `rule` over `src[from..to]` with the given children.
    pub fn new(rule: Rule, src: &[char], from: usize, to: usize, children: Vec<Node>) -> (n: Node)
        requires
            from <= to <= src@.len(),
        ensures
            n@ == branch(rule, src@, from as int, to as int, trees(children@)),
    {
        Node { rule, text: string_of(src, from, to), children }
    }

    /// The childless node of `rule` over `src[from..to]`.
    pub fn leaf(rule: Rule, src: &[char], from: usize, to: usize) -> (n: Node)
        requires
            from <= to <= src@.len(),
        ensures
            n@ == leaf(rule, src@, from as int, to as int),
    {
        let n = Node { rule, text: string_of(src, from, to), children: Vec::new() };
        assert(trees(n.children@) =~= Seq::empty());
        n
    }

    /// The rule that matched this node.
    pub fn as_rule(&self) -> (r: Rule)
        ensures
            r == self@.rule,
    {
        self.rule
    }

    /// The text that this node matched.
    pub fn as_str(&self) -> (s: &str)
        ensures
            s@ == self@.text,
    {
        self.text.as_str()
    }
}

} // verus!
