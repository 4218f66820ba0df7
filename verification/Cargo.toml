[package]
name = "flashbang"
version = "0.1.0"
edition = "2021"
publish = false

[dependencies]
argh = "0.1"
async-trait = "0.1"
bytes = "1"
ctrlc = "3"
env_logger = "0.10"
futures = "0.3"
hmac = "0.12"
log = "0.4"
md-5 = "0.10"
rand = "0.8"
sha1 = "0.10"
sha2 = "0.10"
tokio = { version = "1", features = ["rt-multi-thread", "macros", "net", "time", "io-util"] }

[dev-dependencies]
stun = "0.4"
