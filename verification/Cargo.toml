[package]
name = "packs"
version = "0.1.0"
edition = "2021"
publish = false

[dependencies]
lib-ruby-parser = "4"
line-col = "0.2"
Inflector = "0.11"
glob = "0.3"
rayon = "1"
serde = { version = "1", features = ["derive"] }
