[package]
name = "sansio"
version = "0.1.0"
edition = "2021"
publish = false

[dependencies]
smol = "=2.0.2"
core_affinity = "=0.8.3"
scoped-tls = "=1.0.1"
futures-lite = "=2.6.1"
tokio = { version = "=1.54.1", features = ["rt", "net", "time", "sync", "macros", "io-util"] }
bytes = "=1.12.1"
log = "=0.4.35"
wg = { version = "=1.1.1", features = ["future"] }
