[package]
name = "roster"
version = "0.1.0"
edition = "2021"
publish = false

[dependencies]
anyhow = "1"
printpdf = { version = "0.5", features = ["embedded_images"] }
quick-xml = "0.31"
zip = { version = "0.6", default-features = false, features = ["deflate"] }
