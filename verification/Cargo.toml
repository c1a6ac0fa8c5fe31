[package]
name = "pg_failover_slots_rs"
version = "0.1.0"
edition = "2021"
publish = false

[dependencies]
pgrx = { version = "0.19.1", default-features = false, features = ["pg16"] }
libpq-sys = "0.8.0"
