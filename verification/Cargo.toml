[package]
name = "text_grep"
version = "0.1.0"
edition = "2021"
publish = false

[dependencies]
grep-regex = "*"
grep-searcher = "*"
rayon = "*"
tokio-util = "*"
