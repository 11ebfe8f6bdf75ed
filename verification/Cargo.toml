[package]
name = "dtdb_sql"
version = "0.1.0"
edition = "2021"
publish = false

[dependencies]
chrono = "=0.4.45"
rust_decimal = "=1.43.0"
regex = "=1.13.1"
sqlparser = { version = "=0.62.0", features = ["visitor"] }
postcard = { version = "=1.1.3", features = ["alloc"] }
serde = { version = "=1.0.229", features = ["derive"] }
