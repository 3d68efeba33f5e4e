[package]
name = "celeste_sync"
version = "0.1.0"
edition = "2021"
publish = false

[dependencies]
glob = "=0.3.4"
serde_json = "=1.0.154"
time = "=0.3.55"
futures = { version = "=0.3.34", default-features = false, features = ["executor"] }
keyring = { version = "=3.6.3", default-features = false }
sea-orm = { version = "=1.1.20", default-features = false, features = ["macros"] }
iced = { version = "=0.14.0", default-features = false, features = ["tiny-skia", "x11", "thread-pool"] }
tokio = { version = "=1.54.1", default-features = false, features = ["sync"] }
tr = "=0.1.11"
file-lock = "=2.1.11"
