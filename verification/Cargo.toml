[package]
name = "xmas_package_manager"
version = "0.1.0"
edition = "2021"
publish = false

[dependencies]
node-semver = "2"
serde = { version = "1", features = ["derive"] }
serde_json = "1"
clap = { version = "4", features = ["derive"] }
color-eyre = "0.6"
tokio = { version = "1", features = ["full"] }
indicatif = "0.17"
async-compression = { version = "0.4", features = ["tokio", "gzip"] }
tokio-tar = "0.3"
tokio-util = { version = "0.7", features = ["io"] }
futures = "0.3"
reqwest = { version = "0.12", default-features = false, features = ["json", "stream", "rustls-tls"] }
deno_task_shell = "*"
uuid = { version = "1", features = ["v4"] }
libc = "0.2"
