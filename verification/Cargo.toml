[package]
name = "pslinkb"
version = "0.3.3"
edition = "2021"
publish = false

[dependencies]
md5 = "*"
serde = { version = "1", features = ["derive"] }
serde_json = "1"
hickory-proto = "*"
url = "2"
qrcode = { version = "*", default-features = false }
tokio = { version = "1", features = ["rt-multi-thread", "macros", "net", "time", "sync", "io-util", "signal"] }
reqwest = { version = "*", default-features = false, features = ["json", "cookies", "rustls-tls"] }
clap = { version = "4", features = ["derive"] }
if-addrs = "*"
owo-colors = { version = "4", features = ["supports-colors"] }
rustls = { version = "0.23", default-features = false, features = ["ring", "std"] }
libc = "0.2"
libloading = "*"
