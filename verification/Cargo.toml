[package]
name = "haproxy_modsecurity"
version = "0.1.0"
edition = "2021"
publish = false

[dependencies]
glob = "=0.3.4"
haproxy-api = "=0.9.0"
mlua = { version = "=0.11.6", features = ["lua54", "module"] }
modsecurity = "=1.0.0"
once_cell = "=1.21.4"
rayon = "=1.12.0"
tracing = "=0.1.44"
tracing-subscriber = { version = "=0.3.23", features = ["env-filter"] }
