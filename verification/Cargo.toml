[package]
name = "midn_core"
version = "0.1.0"
edition = "2021"
publish = false

[dependencies]
aes = "0.8"
bytes = "1"
cmac = "0.7"
ctr = "0.9"
hmac = "0.12"
rtc-sctp = "0.20"
rtc-shared = "0.20"
sha2 = "0.10"
subtle = "2"
thiserror = "1"
tokio = { version = "1", features = ["macros", "net", "rt-multi-thread", "sync", "time"] }
tracing = "0.1"
tracing-subscriber = "0.3"
zeroize = "1"
