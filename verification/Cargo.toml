[package]
name = "storm"
version = "0.1.0"
edition = "2021"
publish = false

[dependencies]
vec_map = "=0.8.2"
fxhash = "=0.2.1"
once_cell = "=1.21.4"
tokio = { version = "=1.54.1", features = ["rt", "macros", "sync"] }
Inflector = { version = "0.11", default-features = false }
metrics = "*"
syn = { version = "*", features = ["full"] }
quote = "*"
proc-macro2 = "*"
