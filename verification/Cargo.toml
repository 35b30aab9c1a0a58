[package]
name = "gearbox"
version = "0.1.0"
edition = "2021"
publish = false

[dependencies]
syn = { version = "2", features = ["full"] }
quote = "1"
proc-macro2 = "1"
proc-macro-crate = "3"
serde = { version = "1", features = ["derive"] }
thiserror = "2"
sqlx = { version = "0.8", default-features = false, features = ["postgres", "runtime-tokio", "migrate"] }
tokio = { version = "1", features = ["rt-multi-thread", "macros"] }
