[package]
name = "nix_weather"
version = "0.1.0"
edition = "2021"
publish = false

[dependencies]
clap = { version = "4", features = ["cargo"] }
dns-lookup = "2"
futures = "0.3"
gethostname = "*"
log = "0.4"
pretty_env_logger = "0.5"
reqwest = { version = "0.12", default-features = false, features = ["rustls-tls"] }
rlimit = "0.10"
serde_json = "1"
tokio = { version = "1", features = ["macros", "rt-multi-thread", "time"] }
