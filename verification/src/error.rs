//! The errors of parsing and conversion.

use vstd::prelude::*;
use vstd::string::StringExecFns;
use crate::tree::Rule;

verus! {

/// What can go wrong when a text is parsed or converted.
#[derive(Debug)]
pub enum MarkdownError {
    /// The text does not match the grammar; the description names what was expected.
    ParseError(String),
    /// The renderer met a node of this rule that it has no template for, or
    /// one that lacks the children its template needs.
    UnknownOrMalformedNode(Rule),
    /// A file could not be read or written; the description says why.
    IoError(String),
}

/// The mathematical value of an error.
pub enum Failure {
    Parse(Seq<char>),
    Node(Rule),
    Io(Seq<char>),
}

impl View for MarkdownError {
    type V = Failure;

    open spec fn view(&self) -> Failure {
        match self {
            MarkdownError::ParseError(d) => Failure::Parse(d@),
            MarkdownError::UnknownOrMalformedNode(r) => Failure::Node(*r),
            MarkdownError::IoError(d) => Failure::Io(d@),
        }
    }
}

/// The name of a rule, as error messages spell it.
pub open spec fn name_of(rule: Rule) -> Seq<char> {
    match rule {
        Rule::DocumentStructure => "document_structure"@,
        Rule::DocumentBlock => "document_block"@,
        Rule::DocumentHeading => "document_heading"@,
        Rule::H1Heading => "h1_heading"@,
        Rule::H2Heading => "h2_heading"@,
        Rule::H3Heading => "h3_heading"@,
        Rule::DocumentParagraph => "document_paragraph"@,
        Rule::ParagraphLine => "paragraph_line"@,
        Rule::ParagraphText => "paragraph_text"@,
        Rule::DocumentQuote => "document_quote"@,
        Rule::QuoteLine => "quote_line"@,
        Rule::DocumentUnorderedList => "document_unordered_list"@,
        Rule::DocumentOrderedList => "document_ordered_list"@,
        Rule::UnorderedListItem => "unordered_list_item"@,
        Rule::OrderedListItem => "ordered_list_item"@,
        Rule::CodeFence => "code_fence"@,
        Rule::LanguageSpec => "language_spec"@,
        Rule::CodeBody => "code_body"@,
        Rule::ThematicBreak => "thematic_break"@,
        Rule::BlankLine => "blank_line"@,
        Rule::TextFormatting => "text_formatting"@,
        Rule::BoldFormatting => "bold_formatting"@,
        Rule::BoldContent => "bold_content"@,
        Rule::ItalicFormatting => "italic_formatting"@,
        Rule::ItalicContent => "italic_content"@,
        Rule::UnderlineFormatting => "underline_formatting"@,
        Rule::UnderlineContent => "underline_content"@,
        Rule::StrikethroughFormatting => "strikethrough_formatting"@,
        Rule::StrikethroughContent => "strikethrough_content"@,
        Rule::InlineCode => "inline_code"@,
        Rule::Link => "link"@,
        Rule::LinkContent => "link_content"@,
        Rule::LinkUrl => "link_url"@,
        Rule::LinkChar => "link_char"@,
        Rule::Image => "image"@,
        Rule::ImageAlt => "image_alt"@,
        Rule::ImageUrl => "image_url"@,
        Rule::ImageChar => "image_char"@,
        Rule::UrlChar => "url_char"@,
        Rule::EscapeSequence => "escape_sequence"@,
        Rule::Character => "character"@,
        Rule::PlainText => "plain_text"@,
        Rule::PlainChar => "plain_char"@,
        Rule::Eoi => "EOI"@,
    }
}

/// The description of a text that the given rule does not match.
pub open spec fn expected(rule: Rule) -> Seq<char> {
    "expected "@ + name_of(rule)
}

/// The message of an error.
pub open spec fn message_of(f: Failure) -> Seq<char> {
    match f {
        Failure::Parse(d) => "Parsing failed: "@ + d,
        Failure::Node(r) => "Conversion failed: unknown or malformed node: "@ + name_of(r),
        Failure::Io(d) => "File operation failed: "@ + d,
    }
}

/// The name of a rule.
pub fn rule_name(rule: Rule) -> (name: &'static str)
    ensures
        name@ == name_of(rule),
{
    match rule {
        Rule::DocumentStructure => "document_structure",
        Rule::DocumentBlock => "document_block",
        Rule::DocumentHeading => "document_heading",
        Rule::H1Heading => "h1_heading",
        Rule::H2Heading => "h2_heading",
        Rule::H3Heading => "h3_heading",
        Rule::DocumentParagraph => "document_paragraph",
        Rule::ParagraphLine => "paragraph_line",
        Rule::ParagraphText => "paragraph_text",
        Rule::DocumentQuote => "document_quote",
        Rule::QuoteLine => "quote_line",
        Rule::DocumentUnorderedList => "document_unordered_list",
        Rule::DocumentOrderedList => "document_ordered_list",
        Rule::UnorderedListItem => "unordered_list_item",
        Rule::OrderedListItem => "ordered_list_item",
        Rule::CodeFence => "code_fence",
        Rule::LanguageSpec => "language_spec",
        Rule::CodeBody => "code_body",
        Rule::ThematicBreak => "thematic_break",
        Rule::BlankLine => "blank_line",
        Rule::TextFormatting => "text_formatting",
        Rule::BoldFormatting => "bold_formatting",
        Rule::BoldContent => "bold_content",
        Rule::ItalicFormatting => "italic_formatting",
        Rule::ItalicContent => "italic_content",
        Rule::UnderlineFormatting => "underline_formatting",
        Rule::UnderlineContent => "underline_content",
        Rule::StrikethroughFormatting => "strikethrough_formatting",
        Rule::StrikethroughContent => "strikethrough_content",
        Rule::InlineCode => "inline_code",
        Rule::Link => "link",
        Rule::LinkContent => "link_content",
        Rule::LinkUrl => "link_url",
        Rule::LinkChar => "link_char",
        Rule::Image => "image",
        Rule::ImageAlt => "image_alt",
        Rule::ImageUrl => "image_url",
        Rule::ImageChar => "image_char",
        Rule::UrlChar => "url_char",
        Rule::EscapeSequence => "escape_sequence",
        Rule::Character => "character",
        Rule::PlainText => "plain_text",
        Rule::PlainChar => "plain_char",
        Rule::Eoi => "EOI",
    }
}

impl MarkdownError {
    /// The error of a text that the given rule does not match.
    pub fn unmatched(rule: Rule) -> (e: MarkdownError)
        ensures
            e@ == Failure::Parse(expected(rule)),
    {
        let mut d = String::from_str("expected ");
        d.append(rule_name(rule));
        MarkdownError::ParseError(d)
    }

    /// The message of this error, as it is shown to a user.
    pub fn message(&self) -> (m: String)
        ensures
            m@ == message_of(self@),
    {
        match self {
            MarkdownError::ParseError(d) => {
                let mut m = String::from_str("Parsing failed: ");
                m.append(d.as_str());
                m
            },
            MarkdownError::UnknownOrMalformedNode(r) => {
                let mut m = String::from_str("Conversion failed: unknown or malformed node: ");
                m.append(rule_name(*r));
                m
            },
            MarkdownError::IoError(d) => {
                let mut m = String::from_str("File operation failed: ");
                m.append(d.as_str());
                m
            },
        }
    }
}

} // verus!
