[package]
name = "svgx"
version = "0.1.0"
edition = "2021"
publish = false

[dependencies]
indexmap = "2"
xmlparser = "0.13"
clap = { version = "4", features = ["derive"] }
