[package]
name = "superman"
version = "0.1.0"
edition = "2021"
publish = false

[dependencies]
serde_json = "1"
hex = "0.4"
dashmap = "5"
async-std = { version = "1", features = ["attributes", "unstable"] }
futures = "0.3"
color-eyre = "*"
log = "0.4"
stderrlog = "*"
structopt = "0.3"
hostname = "*"
