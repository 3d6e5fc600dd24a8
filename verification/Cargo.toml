[package]
name = "moss"
version = "0.1.0"
edition = "2021"
publish = false

[dependencies]
regex = "=1.13.1"
sublime_fuzzy = "=0.7.0"
infer = "=0.22.0"
deunicode = "=1.6.2"
serde = { version = "=1.0.229", features = ["derive"] }
serde_json = "=1.0.154"
directories = "=6.0.0"
zip = { version = "*", default-features = false, features = ["deflate"] }
classfile-parser = "*"
