[package]
name = "litt"
version = "0.1.0"
edition = "2021"
publish = false

[dependencies]
levenshtein = "1.0"
unicode-segmentation = "1"
tantivy = "0.22"
serde_json = "1"
uuid = { version = "1", features = ["v4"] }
walkdir = "2"
rayon = "1"
shellexpand = "3"
thiserror = "1"
clap = { version = "4", features = ["derive"] }
colored = "2"
crossterm = "0.27"
