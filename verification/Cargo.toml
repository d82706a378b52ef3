[package]
name = "leafpress"
version = "0.1.0"
edition = "2021"
publish = false

[dependencies]
tree-sitter = "*"
object = "*"
libloading = "*"
serde = { version = "1", features = ["derive"] }
serde_json = "1"
serde_yaml = "*"
clap = { version = "4", features = ["derive", "env"] }
cairo-rs = "*"
pango = "*"
pangocairo = "*"

[dev-dependencies]
tree-sitter-go = "*"
