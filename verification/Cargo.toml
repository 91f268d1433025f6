[package]
name = "markdown_parser"
version = "0.1.0"
edition = "2021"
publish = false

[dependencies]
clap = "4"
html-escape = "0.2"
thiserror = "1"
