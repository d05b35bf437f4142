[package]
name = "wikirender"
version = "0.1.0"
edition = "2021"
publish = false

[dependencies]
htmlescape = "*"
percent-encoding = "*"
parse_wiki_text = "*"
