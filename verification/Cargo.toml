[package]
name = "prelearning"
version = "0.1.0"
edition = "2021"
publish = false

[dependencies]
unicode-normalization = "*"
sha2 = "*"
hex = "*"
convert_case = "*"
heapless = "*"
trie-rs = "*"
memchr = "*"
tinyvec = "*"
serde = { version = "1", features = ["derive"] }
serde_json = "1"
quick-xml = { version = "*", features = ["serialize"] }
serde-xml-rs = "*"
zip = { version = "*", default-features = false, features = ["deflate"] }
html5ever = "*"
typed-arena = "*"
rayon = "*"
reqwest = { version = "*", default-features = false, features = ["json"] }
tokio = { version = "1", features = ["rt-multi-thread", "sync", "macros"] }
mpv-client = "*"
arboard = "*"
axum = "*"
