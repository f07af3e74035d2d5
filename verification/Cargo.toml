[package]
name = "infmon"
version = "0.1.0"
edition = "2021"
publish = false

[dependencies]
clap = { version = "4", features = ["derive"] }
clap_complete = "4"
clap_mangen = "0.2"
hostname = "0.4"
inventory = "0.3"
libc = "0.2"
log = "0.4"
opentelemetry-proto = { version = "0.27", default-features = false, features = ["gen-tonic", "metrics"] }
rand = "0.8"
serde = { version = "1", features = ["derive"] }
serde_json = "1"
serde_yaml = "0.9"
signal-hook = "0.3"
syslog-tracing = "0.3"
tokio = { version = "1", features = ["rt", "net", "time", "io-util", "signal", "sync", "macros"] }
tonic = { version = "0.12", features = ["transport"] }
tracing = "0.1"
tracing-appender = "0.2"
tracing-subscriber = { version = "0.3", features = ["env-filter", "fmt"] }
uuid = { version = "1", features = ["v4"] }
