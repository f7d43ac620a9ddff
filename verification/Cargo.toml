[package]
name = "mdexplorer"
version = "0.1.0"
edition = "2021"
publish = false

[dependencies]
pulldown-cmark = "0.10"
ratatui = "0.26"
crossterm = "0.27"
arboard = { version = "3", default-features = false }
opener = "0.7"
dunce = "1"
