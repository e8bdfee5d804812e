[package]
name = "metis"
version = "0.1.0"
edition = "2021"
publish = false

[dependencies]
lru = "=0.19.0"
anyhow = "=1.0.104"
aya = "=0.13.1"
aya-log = "=0.2.1"
tokio = { version = "=1.54.1", features = ["macros", "rt-multi-thread", "net", "signal", "time"] }
serde = { version = "=1.0.229", features = ["derive"] }
log = "=0.4.35"
env_logger = "=0.11.11"
libc = "=0.2.191"
