[package]
name = "yororen_ui_xml"
version = "0.1.0"
edition = "2021"
publish = false

[dependencies]
roxmltree = "0.20"
proc-macro2 = "1"
quote = "1"
syn = { version = "2", features = ["full", "extra-traits"] }
inventory = "0.3"
toml = "0.8"
serde = { version = "1", features = ["derive"] }
