[package]
name = "repopatch"
version = "0.1.0"
edition = "2021"
publish = false

[dependencies]
actix-cors = "*"
actix-web = { version = "*", features = ["rustls-0_23"] }
alphanumeric-sort = "*"
chrono = "*"
diff-match-patch-rs = "*"
dotenv = "*"
env_logger = "*"
futures = "*"
ignore = "*"
log = "*"
rustls = { version = "*", default-features = false, features = ["ring", "logging", "std", "tls12"] }
rustls-pemfile = "*"
serde = { version = "*", features = ["derive"] }
serde_json = "*"
tokio = { version = "*", features = ["fs", "macros", "rt-multi-thread"] }
