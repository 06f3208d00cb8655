[package]
name = "mod_installer"
version = "0.1.0"
edition = "2021"
publish = false

[dependencies]
futures-util = "=0.3.34"
indicatif = "=0.17.11"
reqwest = { version = "=0.12.28", features = ["stream"] }
rfd = { version = "=0.17.2", default-features = false, features = ["xdg-portal"] }
tokio = { version = "=1.54.1", features = ["macros", "rt-multi-thread"] }
zip = { version = "=8.6.0", default-features = false, features = ["deflate"] }
zip-extensions = { version = "=0.14.1", default-features = false, features = ["deflate"] }
