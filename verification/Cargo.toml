[package]
name = "mayastor"
version = "0.1.0"
edition = "2021"
publish = false

[dependencies]
crc = "=1.8.1"
uuid = { version = "=0.8.2", features = ["v4"] }
url = "=2.5.8"
snafu = "=0.6.10"
structopt = "=0.3.26"
byte-unit = "=4.0.19"
futures = "=0.3.34"
async-trait = "=0.1.92"
libc = "=0.2.191"
http = "0.2"

[dev-dependencies]
bincode = "=1.3.3"
serde = "=1.0.229"
