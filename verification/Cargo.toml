[package]
name = "torb"
version = "0.3.7"
edition = "2021"
publish = false

[dependencies]
indexmap = { version = "=1.9.3", features = ["serde"] }
serde = { version = "=1.0.229", features = ["derive"] }
serde_json = "=1.0.154"
serde_yaml = "=0.8.26"
sha2 = "=0.10.9"
data-encoding = "=2.11.1"
memorable-wordlist = "=0.1.7"
hcl-rs = "=0.19.9"
thiserror = "=1.0.69"
clap = "=3.2.25"
colored = "=2.2.0"
dirs = "=7.0.0"
once_cell = "=1.21.4"
ureq = { version = "=2.12.1", features = ["json"] }
rayon = "=1.12.0"
notify = "6"
tokio = { version = "1", features = ["rt-multi-thread", "sync", "time"] }
image = { version = "0.24", default-features = false, features = ["gif"] }
drawille = "*"
crossterm = "*"
