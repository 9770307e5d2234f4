[package]
name = "mdrender"
version = "0.1.0"
edition = "2021"
publish = false

[dependencies]
pulldown-cmark = "0.10"
crossterm = "0.27"
ratatui = "0.26"
dunce = "1"
