[package]
name = "cqlsh_rs"
version = "0.1.0"
edition = "2021"
publish = false

[dependencies]
clap = { version = "3", features = ["derive"] }
scylla = "*"
text_io = "*"
tokio = { version = "1", features = ["macros", "rt-multi-thread"] }
