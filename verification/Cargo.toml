[package]
name = "docbook_to_mdbook"
version = "0.1.0"
edition = "2021"
publish = false

[dependencies]
anyhow = "1"
bstr = "1"
isnt = "*"
quick-xml = "0.38"
regex = "1"
textwrap = "0.16"
