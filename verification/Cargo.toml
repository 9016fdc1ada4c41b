[package]
name = "paxhtml"
version = "0.1.0"
edition = "2021"
publish = false

[dependencies]
html-escape = "*"
convert_case = "*"
bumpalo = { version = "*", features = ["collections"] }
serde = { version = "*", features = ["derive"] }
mlua = { version = "*", features = ["lua54", "vendored", "serialize"] }
syn = { version = "*", features = ["full"] }
quote = "*"
proc-macro2 = "*"
