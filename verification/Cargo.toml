[package]
name = "vespertide"
version = "0.1.0"
edition = "2021"
publish = false

[dependencies]
tree-sitter = "*"
tree-sitter-json = "*"
tree-sitter-yaml = "*"
lsp-textdocument = "*"
lsp-types = "*"
serde_json = "*"
serde_yaml = "*"
tower-lsp-server = "*"
tokio = { version = "*", features = ["rt-multi-thread", "macros", "io-std"] }
tracing = "*"
tracing-subscriber = { version = "*", features = ["env-filter"] }
dashmap = "*"
