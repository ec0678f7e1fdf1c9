[package]
name = "comment_checker"
version = "0.1.0"
edition = "2021"
publish = false

[dependencies]
tree-sitter = "=0.27.1"
tree-sitter-language-pack = "=1.23.1"
itoa = "=1.0.18"
serde = { version = "=1.0.229", features = ["derive"] }
serde_json = "=1.0.154"
clap = { version = "=4.6.7", features = ["derive"] }

[dev-dependencies]
tree-sitter-python = "=0.25.0"
tree-sitter-go = "=0.25.0"
tree-sitter-javascript = "=0.25.0"
tree-sitter-typescript = "=0.23.2"
tree-sitter-java = "=0.23.5"
tree-sitter-c = "=0.24.2"
tree-sitter-cpp = "=0.23.4"
tree-sitter-rust = "=0.24.2"
tree-sitter-ruby = "=0.23.1"
tree-sitter-bash = "=0.25.1"
tree-sitter-kotlin-sg = "*"
tree-sitter-swift = "=0.7.4"
