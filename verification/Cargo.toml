[package]
name = "finance_api"
version = "0.1.0"
edition = "2021"
publish = false

[dependencies]
bcrypt = "*"
jsonwebtoken = { version = "*", default-features = false, features = ["rust_crypto"] }
time = { version = "*", features = ["formatting", "parsing", "macros"] }
serde = { version = "*", features = ["derive"] }
serde_json = "*"
actix-web = { version = "*", default-features = false, features = ["macros"] }
actix-cors = "*"
actix-web-httpauth = "*"
diesel = { version = "*", features = ["sqlite", "r2d2"] }
libsqlite3-sys = { version = "*", features = ["bundled"] }
dotenvy = "*"
env_logger = "*"
