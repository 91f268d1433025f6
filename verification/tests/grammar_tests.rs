use markdown_parser::{MarkdownError, MarkdownParser, Node, Rule};

fn parse_by_rule(rule: Rule, input: &str) -> Result<Node, MarkdownError> {
    MarkdownParser::parse(rule, input)
}

fn describe(e: MarkdownError) -> String {
    e.message()
}

fn get_single_pair(node: Node, expected_rule: Rule, context: &str) -> Result<Node, String> {
    if node.as_rule() == expected_rule {
        Ok(node)
    } else {
        Err(format!(
            "Expected rule {:?}, got {:?} in {}",
            expected_rule,
            node.as_rule(),
            context
        ))
    }
}

fn get_inner_pair<'a>(pair: &'a Node, expected_rule: Rule, context: &str) -> Result<&'a Node, String> {
    match pair.children.first() {
        None => Err(format!("Expected inner {:?} in {}", expected_rule, context)),
        Some(inner_pair) => {
            if inner_pair.as_rule() == expected_rule {
                Ok(inner_pair)
            } else {
                Err(format!(
                    "Expected inner rule {:?}, got {:?} in {}",
                    expected_rule,
                    inner_pair.as_rule(),
                    context
                ))
            }
        }
    }
}

fn get_child<'a>(pair: &'a Node, index: usize, expected_rule: Rule, context: &str) -> Result<&'a Node, String> {
    match pair.children.get(index) {
        None => Err(format!("Expected {:?} in {}", expected_rule, context)),
        Some(child) => {
            if child.as_rule() == expected_rule {
                Ok(child)
            } else {
                Err(format!(
                    "Expected rule {:?}, got {:?} in {}",
                    expected_rule,
                    child.as_rule(),
                    context
                ))
            }
        }
    }
}

fn get_headers_start_length(rule: Rule) -> usize {
    match rule {
        Rule::H1Heading => 1,
        Rule::H2Heading => 2,
        Rule::H3Heading => 3,
        _ => 0,
    }
}

fn check_header(rule: Rule, header_string: &str) {
    let result = parse_by_rule(rule, header_string).expect("An error occured while parsing");

    for pair in vec![result] {
        if pair.as_rule() == Rule::H1Heading {
            println!("Read: {}", pair.as_str());
            assert_eq!(header_string, pair.as_str());

            let header_text: Vec<&str> = pair
                .children
                .iter()
                .filter(|pair| pair.as_rule() == Rule::DocumentHeading)
                .map(|pair| pair.as_str())
                .collect();

            for text in &header_text {
                println!("heading_text content: {}", *text);
                let string_start: usize = get_headers_start_length(rule) + 1;
                assert_eq!(*text, &header_string[string_start..]);
            }
        }
    }
}

#[test]
fn check_headers() {
    check_header(Rule::H1Heading, "# Header 1 ###   some text!");
    check_header(
        Rule::H1Heading,
        "# Header 1 # !## some !@#$%^&*(*&^%|}\"?text!",
    );
    check_header(Rule::H1Heading, "# M");

    check_header(Rule::H2Heading, "## Header 2 ## Some other     text.");
    check_header(Rule::H2Heading, "## Special # symbols in header 2! @#$%");
    check_header(Rule::H2Heading, "## Another heading 2");

    check_header(Rule::H3Heading, "### Header 3 with          more text");
    check_header(Rule::H3Heading, "### H3 with special chars $%^&*()");
    check_header(Rule::H3Heading, "### Simple header 3");
}

#[test]
#[should_panic]
fn check_wrong_headers() {
    check_header(Rule::H1Heading, "# ");
    check_header(Rule::H1Heading, "#");
    check_header(Rule::H1Heading, "## Another header, not h1");

    check_header(Rule::H2Heading, "## ");
    check_header(Rule::H2Heading, "##");
    check_header(Rule::H2Heading, "# Header not h2");

    check_header(Rule::H3Heading, "### ");
    check_header(Rule::H3Heading, "###");
    check_header(Rule::H3Heading, "# Header not h3");
}

#[test]
fn check_plain_text() {
    let res1 = parse_by_rule(Rule::PlainText, "This is a plain text");
    assert!(res1.is_ok());
    assert_eq!(res1.unwrap().as_str(), "This is a plain text");

    let res2 = parse_by_rule(Rule::PlainText, "This is \\* plain text");
    assert!(res2.is_ok());
    assert_eq!(res2.unwrap().as_str(), "This is ");
}

#[test]
fn check_plain_char() -> Result<(), String> {
    let input = "a";
    let pairs = parse_by_rule(Rule::PlainChar, input).map_err(describe)?;
    let pair = get_single_pair(pairs, Rule::PlainChar, "plain char")?;
    assert_eq!(pair.as_str(), "a");

    let invalid_inputs = ["*", "_", "~", "[", "\\"];
    for &input in &invalid_inputs {
        let result = parse_by_rule(Rule::PlainChar, input);
        assert!(result.is_err(), "plain_char should reject: {}", input);
    }

    Ok(())
}

#[test]
fn check_link_char() -> Result<(), String> {
    let input = "a";
    let pairs = parse_by_rule(Rule::LinkChar, input).map_err(describe)?;
    let pair = get_single_pair(pairs, Rule::LinkChar, "link char")?;
    assert_eq!(pair.as_str(), "a");

    let input = "\\]";
    let pairs = parse_by_rule(Rule::LinkChar, input).map_err(describe)?;
    let pair = get_single_pair(pairs, Rule::LinkChar, "escaped link char")?;
    assert_eq!(pair.as_str(), "\\]");

    Ok(())
}

#[test]
fn check_image_char() -> Result<(), String> {
    let input = "a";
    let pairs = parse_by_rule(Rule::ImageChar, input).map_err(describe)?;
    let pair = get_single_pair(pairs, Rule::ImageChar, "image char")?;
    assert_eq!(pair.as_str(), "a");

    let input = "\\]";
    let pairs = parse_by_rule(Rule::ImageChar, input).map_err(describe)?;
    let pair = get_single_pair(pairs, Rule::ImageChar, "escaped image char")?;
    assert_eq!(pair.as_str(), "\\]");

    Ok(())
}

#[test]
fn check_url_char() -> Result<(), String> {
    let input = "a";
    let pairs = parse_by_rule(Rule::UrlChar, input).map_err(describe)?;
    let pair = get_single_pair(pairs, Rule::UrlChar, "url char")?;
    assert_eq!(pair.as_str(), "a");

    let input = "\\)";
    let pairs = parse_by_rule(Rule::UrlChar, input).map_err(describe)?;
    let pair = get_single_pair(pairs, Rule::UrlChar, "escaped url char")?;
    assert_eq!(pair.as_str(), "\\)");

    Ok(())
}

#[test]
fn check_document_heading() -> Result<(), String> {
    let input = "# Heading";
    let pairs = parse_by_rule(Rule::DocumentHeading, input).map_err(describe)?;
    let pair = get_single_pair(pairs, Rule::H1Heading, "document heading h1")?;
    assert_eq!(pair.as_str(), "# Heading");

    let input = "## Heading";
    let pairs = parse_by_rule(Rule::DocumentHeading, input).map_err(describe)?;
    let pair = get_single_pair(pairs, Rule::H2Heading, "document heading h2")?;
    assert_eq!(pair.as_str(), "## Heading");

    let input = "### Heading";
    let pairs = parse_by_rule(Rule::DocumentHeading, input).map_err(describe)?;
    let pair = get_single_pair(pairs, Rule::H3Heading, "document heading h3")?;
    assert_eq!(pair.as_str(), "### Heading");

    Ok(())
}

#[test]
fn check_escaped() -> Result<(), String> {
    let input = "\\*";
    let pairs = parse_by_rule(Rule::EscapeSequence, input).map_err(describe)?;
    let pair = get_single_pair(pairs, Rule::EscapeSequence, "escaped asterisk")?;
    let char_pair = get_inner_pair(&pair, Rule::Character, "escaped char")?;
    assert_eq!(char_pair.as_str(), "*");

    let input = "\\\\";
    let pairs = parse_by_rule(Rule::EscapeSequence, input).map_err(describe)?;
    let pair = get_single_pair(pairs, Rule::EscapeSequence, "escaped backslash")?;
    let char_pair = get_inner_pair(&pair, Rule::Character, "escaped char")?;
    assert_eq!(char_pair.as_str(), "\\");

    Ok(())
}

#[test]
#[should_panic]
fn check_escaped_panic() {
    let input = "\\ a";
    let pairs = parse_by_rule(Rule::EscapeSequence, input);
    pairs.expect("An error occurred, expected cause: whitespace after \\");
}

#[test]
fn check_italic() -> Result<(), String> {
    let input = "*this text is italic*";
    let pairs = parse_by_rule(Rule::ItalicFormatting, input).map_err(describe)?;
    let pair = get_single_pair(pairs, Rule::ItalicFormatting, "asterisk italic")?;
    let content = get_inner_pair(&pair, Rule::ItalicContent, "italic content")?;
    assert_eq!(content.as_str(), "this text is italic");

    let input = "_italic test 2_";
    let pairs = parse_by_rule(Rule::ItalicFormatting, input).map_err(describe)?;
    let pair = get_single_pair(pairs, Rule::ItalicFormatting, "underscore italic")?;
    let content = get_inner_pair(&pair, Rule::ItalicContent, "italic content")?;
    assert_eq!(content.as_str(), "italic test 2");

    Ok(())
}

#[test]
fn check_bold() -> Result<(), String> {
    let input = "**this text is bold**";
    let pairs = parse_by_rule(Rule::BoldFormatting, input).map_err(describe)?;
    let pair = get_single_pair(pairs, Rule::BoldFormatting, "bold text")?;
    let content = get_inner_pair(&pair, Rule::BoldContent, "bold content")?;
    assert_eq!(content.as_str(), "this text is bold");

    Ok(())
}

#[test]
fn check_underline() -> Result<(), String> {
    let input = "__underlined text!__";
    let pairs = parse_by_rule(Rule::UnderlineFormatting, input).map_err(describe)?;
    let pair = get_single_pair(pairs, Rule::UnderlineFormatting, "underline text")?;
    let content = get_inner_pair(&pair, Rule::UnderlineContent, "underline content")?;
    assert_eq!(content.as_str(), "underlined text!");

    Ok(())
}

#[test]
fn check_strikethrough() -> Result<(), String> {
    let input = "~~some striked text!~~";
    let pairs = parse_by_rule(Rule::StrikethroughFormatting, input).map_err(describe)?;
    let pair = get_single_pair(
        pairs,
        Rule::StrikethroughFormatting,
        "strikethrough text",
    )?;
    let content = get_inner_pair(&pair, Rule::StrikethroughContent, "strikethrough content")?;
    assert_eq!(content.as_str(), "some striked text!");

    Ok(())
}

#[test]
fn check_inline_link() -> Result<(), String> {
    let input = "[click this!](https://google.com/)";
    let pairs = parse_by_rule(Rule::Link, input).map_err(describe)?;
    let pair = get_single_pair(pairs, Rule::Link, "inline link")?;

    let link_text = get_child(&pair, 0, Rule::LinkContent, "link content")?;
    assert_eq!(link_text.as_str(), "click this!");

    let url = get_child(&pair, 1, Rule::LinkUrl, "link url")?;
    assert_eq!(url.as_str(), "https://google.com/");

    Ok(())
}

#[test]
fn check_inline_image() -> Result<(), String> {
    let input = "![alternative text](https://example.com/image.png)";
    let pairs = parse_by_rule(Rule::Image, input).map_err(describe)?;
    let pair = get_single_pair(pairs, Rule::Image, "inline image")?;

    let alt_text = get_child(&pair, 0, Rule::ImageAlt, "image alt text")?;
    assert_eq!(alt_text.as_str(), "alternative text");

    let url = get_child(&pair, 1, Rule::ImageUrl, "image url")?;
    assert_eq!(url.as_str(), "https://example.com/image.png");

    Ok(())
}

#[test]
fn check_quote() -> Result<(), String> {
    let input = ">This is a text in a quote\n>this is also a part of a quote\n>this one is too.";
    let pair = parse_by_rule(Rule::DocumentQuote, input).map_err(describe)?;

    assert_eq!(pair.as_rule(), Rule::DocumentQuote);

    let mut quote_inner = pair.children.iter();
    let quote_line1 = quote_inner
        .next()
        .ok_or_else(|| "Expected a quote_line, but found none".to_string())?;

    assert_eq!(quote_line1.as_rule(), Rule::QuoteLine);

    let mut quote_line1_inner = quote_line1.children.iter();
    let paragraph_text1 = quote_line1_inner.next().ok_or_else(|| {
        "Expected paragraph_text in the first quote line, but found none".to_string()
    })?;

    assert_eq!(paragraph_text1.as_rule(), Rule::ParagraphText);
    let plain_text1 = paragraph_text1
        .children
        .first()
        .ok_or_else(|| "Expected plain_text in the first line, but found none".to_string())?;

    assert_eq!(plain_text1.as_str(), "This is a text in a quote");

    let quote_line2 = quote_inner
        .next()
        .ok_or_else(|| "Expected the second quote_line, but found none".to_string())?;

    assert_eq!(quote_line2.as_rule(), Rule::QuoteLine);

    let mut quote_line2_inner = quote_line2.children.iter();
    let paragraph_text2 = quote_line2_inner.next().ok_or_else(|| {
        "Expected paragraph_text in the second quote line, but found none".to_string()
    })?;

    assert_eq!(paragraph_text2.as_rule(), Rule::ParagraphText);
    let plain_text2 = paragraph_text2
        .children
        .first()
        .ok_or_else(|| "Expected plain_text in the second line, but found none".to_string())?;

    assert_eq!(plain_text2.as_str(), "this is also a part of a quote");

    let quote_line3 = quote_inner
        .next()
        .ok_or_else(|| "Expected the third quote_line, but found none".to_string())?;

    assert_eq!(quote_line3.as_rule(), Rule::QuoteLine);

    let mut quote_line3_inner = quote_line3.children.iter();
    let paragraph_text3 = quote_line3_inner.next().ok_or_else(|| {
        "Expected paragraph_text in the third quote line, but found none".to_string()
    })?;

    assert_eq!(paragraph_text3.as_rule(), Rule::ParagraphText);
    let plain_text3 = paragraph_text3
        .children
        .first()
        .ok_or_else(|| "Expected plain_text in the third line, but found none".to_string())?;

    assert_eq!(plain_text3.as_str(), "this one is too.");

    Ok(())
}

#[test]
fn check_code_block() -> Result<(), String> {
    let input = "```py\nprint(\"Hello World!\")\n```";
    let pairs = parse_by_rule(Rule::CodeFence, input).map_err(describe)?;
    let pair = get_single_pair(pairs, Rule::CodeFence, "code fence")?;

    let code_lang = get_child(&pair, 0, Rule::LanguageSpec, "language spec")?;
    assert_eq!(code_lang.as_str(), "py");

    let code_content = get_child(&pair, 1, Rule::CodeBody, "code body")?;
    assert_eq!(code_content.as_str(), "print(\"Hello World!\")");

    Ok(())
}

#[test]
fn check_horizontal_rule() -> Result<(), String> {
    let inputs = vec!["---", "***", "___", "---   ", "***\n", "___\n"];

    for input in inputs {
        let pair = parse_by_rule(Rule::ThematicBreak, input).map_err(describe)?;

        assert_eq!(pair.as_rule(), Rule::ThematicBreak);
        assert_eq!(pair.as_str().trim(), input.trim());
    }

    Ok(())
}

#[test]
fn check_inline_code() -> Result<(), String> {
    let inputs = vec!["`code`", "`let x = 1;`", "`function() { return true; }`"];

    for input in inputs {
        let pair = parse_by_rule(Rule::InlineCode, input).map_err(describe)?;

        assert_eq!(pair.as_rule(), Rule::InlineCode);
        assert_eq!(pair.as_str(), input);
    }

    Ok(())
}

#[test]
fn check_unordered_list_item() -> Result<(), String> {
    let inputs = vec!["- item\n", "* item\n", "- First item\n", "* Second item\n"];

    for input in inputs {
        let pair = parse_by_rule(Rule::UnorderedListItem, input).map_err(describe)?;

        assert_eq!(pair.as_rule(), Rule::UnorderedListItem);
        assert_eq!(pair.as_str(), input);
    }

    Ok(())
}

#[test]
fn check_ordered_list_item() -> Result<(), String> {
    let inputs = vec!["1. item\n", "2. item\n", "10. item\n", "123. item\n"];

    for input in inputs {
        let pair = parse_by_rule(Rule::OrderedListItem, input).map_err(describe)?;

        assert_eq!(pair.as_rule(), Rule::OrderedListItem);
        assert_eq!(pair.as_str(), input);
    }

    Ok(())
}

#[test]
fn check_document_unordered_list() -> Result<(), String> {
    let input = "- item 1\n* item 2\n- item 3\n";

    let pair = parse_by_rule(Rule::DocumentUnorderedList, input).map_err(describe)?;

    assert_eq!(pair.as_rule(), Rule::DocumentUnorderedList);
    assert_eq!(pair.as_str(), input);

    let items: Vec<&Node> = pair.children.iter().collect();
    assert_eq!(items.len(), 3);
    for item in items {
        assert_eq!(item.as_rule(), Rule::UnorderedListItem);
    }

    Ok(())
}

#[test]
fn check_document_ordered_list() -> Result<(), String> {
    let input = "1. item 1\n2. item 2\n3. item 3\n";

    let pair = parse_by_rule(Rule::DocumentOrderedList, input).map_err(describe)?;

    assert_eq!(pair.as_rule(), Rule::DocumentOrderedList);
    assert_eq!(pair.as_str(), input);

    let items: Vec<&Node> = pair.children.iter().collect();
    assert_eq!(items.len(), 3);
    for item in items {
        assert_eq!(item.as_rule(), Rule::OrderedListItem);
    }

    Ok(())
}

#[test]
fn check_markdown() -> Result<(), String> {
    let input = "# Hello this is my 1st post!\n___\n\nThis is **bold** text!\nThat's all. Bye!";

    let pair = parse_by_rule(Rule::DocumentStructure, input).map_err(describe)?;

    assert_eq!(pair.as_rule(), Rule::DocumentStructure);

    let mut markdown_inner = pair.children.iter();

    let heading_block = markdown_inner
        .next()
        .ok_or_else(|| "Expected document_block with heading, but found none".to_string())?;

    assert_eq!(heading_block.as_rule(), Rule::DocumentBlock);

    let heading1 = heading_block
        .children
        .first()
        .ok_or_else(|| "Expected h1_heading".to_string())?;

    assert_eq!(heading1.as_rule(), Rule::H1Heading);
    assert_eq!(heading1.as_str().trim(), "# Hello this is my 1st post!");

    let hr_block = markdown_inner.next().ok_or_else(|| {
        "Expected document_block with thematic_break, but found none".to_string()
    })?;

    assert_eq!(hr_block.as_rule(), Rule::DocumentBlock);

    let horizontal_rule = hr_block
        .children
        .first()
        .ok_or_else(|| "Expected thematic_break".to_string())?;

    assert_eq!(horizontal_rule.as_rule(), Rule::ThematicBreak);
    assert_eq!(horizontal_rule.as_str().trim(), "___");

    // The empty line after the break is a block of its own.
    let blank_block = markdown_inner
        .next()
        .ok_or_else(|| "Expected document_block with blank_line, but found none".to_string())?;

    assert_eq!(blank_block.as_rule(), Rule::DocumentBlock);

    let blank = blank_block
        .children
        .first()
        .ok_or_else(|| "Expected blank_line".to_string())?;

    assert_eq!(blank.as_rule(), Rule::BlankLine);

    let paragraph_block = markdown_inner
        .next()
        .ok_or_else(|| "Expected document_block with paragraph, but found none".to_string())?;

    assert_eq!(paragraph_block.as_rule(), Rule::DocumentBlock);

    let paragraph2 = paragraph_block
        .children
        .first()
        .ok_or_else(|| "Expected document_paragraph".to_string())?;

    assert_eq!(paragraph2.as_rule(), Rule::DocumentParagraph);
    assert!(!paragraph2.as_str().is_empty());

    println!("Test passed: found heading, thematic break, and paragraph");

    Ok(())
}
