[package]
name = "reskit_apierrors"
version = "0.1.0"
edition = "2021"
publish = false

[dependencies]
anyhow = "=1.0.104"
http-types = { version = "=2.12.0", default-features = false }
lazy_static = "=1.5.1"
linkme = "=0.2.10"
proc-macro2 = { version = "=1.0.107", features = ["span-locations"] }
quote = "=1.0.47"
serde = "=1.0.229"
syn = { version = "=1.0.109", features = ["full"] }

[dev-dependencies]
serde_json = "=1.0.154"
