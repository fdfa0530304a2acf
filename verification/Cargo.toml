[package]
name = "peekaboo"
version = "0.1.0"
edition = "2021"
publish = false

[dependencies]
clap = { version = "*", features = ["derive"] }
serde = { version = "*", features = ["derive"] }
serde_json = "*"
chrono = "*"
sysinfo = "*"
libc = "*"
log = "*"
env_logger = "*"
uuid = { version = "*", features = ["v4"] }

[dev-dependencies]
strsim = "*"
