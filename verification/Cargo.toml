[package]
name = "lib_epub"
version = "0.1.0"
edition = "2021"
publish = false

[dependencies]
chrono = { version = "0.4", default-features = false, features = ["clock", "std"] }
infer = "*"
log = "0.4"
quick-xml = "*"
sha1 = "0.10"
sha2 = "0.10"
thiserror = "*"
walkdir = "2"
zip = { version = "*", default-features = false, features = ["deflate"] }
