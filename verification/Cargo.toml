[package]
name = "storage_bench"
version = "0.1.0"
edition = "2021"
publish = false

[dependencies]
anyhow = "1"
clap = { version = "4", features = ["derive"] }
io-uring = "0.6"
libc = "0.2"
num_cpus = "1"
procfs = "0.16"
rand = "0.8"
serde = { version = "1", features = ["derive"] }
sysinfo = "0.30"
tokio = { version = "1", features = ["macros", "rt-multi-thread"] }
