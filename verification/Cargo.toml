[package]
name = "tui_additions"
version = "0.1.0"
edition = "2021"
publish = false

[dependencies]
unicode-segmentation = "1"
ratatui = "*"
crossterm = "*"
