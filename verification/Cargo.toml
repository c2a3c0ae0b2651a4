[package]
name = "rm_query"
version = "0.1.0"
edition = "2021"
publish = false

[dependencies]
chrono = { version = "0.4", default-features = false, features = ["std"] }
async-trait = "0.1"
crossterm = "0.25"
reqwest = { version = "0.11", default-features = false, features = ["json", "rustls-tls"] }
serde = { version = "1", features = ["derive"] }
tokio = { version = "1", features = ["rt-multi-thread", "macros"] }
tui = "0.19"
tui-input = "0.6"

[dev-dependencies]
regex-lexer-lalrpop = "*"
