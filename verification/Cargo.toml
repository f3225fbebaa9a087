[package]
name = "cdc_contract"
version = "0.1.0"
edition = "2021"
publish = false

[dependencies]
base64 = "=0.22.1"
sha2 = "=0.10.9"
serde = { version = "=1.0.229", features = ["derive"] }
serde_json = { version = "=1.0.154", features = ["preserve_order"] }
mysql = { version = "=28.0.4", default-features = false, features = ["minimal-rust", "binlog"] }
mysql_common = { version = "=0.37.3", default-features = false, features = ["binlog"] }
