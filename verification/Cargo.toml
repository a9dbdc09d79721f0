[package]
name = "repo_sql"
version = "0.1.0"
edition = "2021"
publish = false

[dependencies]
chrono = "=0.4.45"
flate2 = "=1.1.10"
mysql_common = { version = "=0.38.2", default-features = false, features = ["chrono"] }
serde = { version = "=1.0.229", features = ["derive"] }
