[package]
name = "compact_bar"
version = "0.1.0"
edition = "2021"
publish = false

[dependencies]
ansi_term = "=0.12.1"
unicode-width = "=0.2.2"
zellij-tile = "*"
zellij-tile-utils = "*"
