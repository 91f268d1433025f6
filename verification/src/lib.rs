//! Markdown to HTML conversion with a verified parser and renderer.

pub mod block;
pub mod chars;
pub mod convert;
pub mod error;
pub mod escape;
pub mod inline;
pub mod parser;
pub mod render;
pub mod scan;
pub mod shapes;
pub mod text;
pub mod totality;
pub mod tree;

pub use crate::convert::{parse_markdown, str_to_html};
pub use crate::error::MarkdownError;
pub use crate::parser::MarkdownParser;
pub use crate::render::convert_to_html;
pub use crate::tree::{Node, Rule};
