[package]
name = "rupta"
version = "0.1.0"
edition = "2021"
publish = false

[dependencies]
arrayvec = "0.7"
petgraph = "0.6"
clap = { version = "3.2", features = ["cargo"] }
serde = { version = "1", features = ["derive"] }
serde_json = "1"
log = "0.4"
env_logger = "0.10"
libc = "0.2"
itertools = "0.10"
rayon = "1"
humantime = "2"
lazy_static = "1"
cargo_metadata = "0.18"

[dev-dependencies]
rand = "0.8"
