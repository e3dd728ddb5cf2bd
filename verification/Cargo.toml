[package]
name = "rulodb"
version = "0.1.0"
edition = "2021"
publish = false

[dependencies]
anyhow = "*"
byteorder = "*"
log = "*"
rmpv = "*"
rust_decimal = "*"
tokio = { version = "*", features = ["rt", "net", "io-util"] }
