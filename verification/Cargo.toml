[package]
name = "forest_ear_bot"
version = "0.1.0"
edition = "2021"
publish = false

[dependencies]
zip = { version = "=0.6.6", default-features = false, features = ["deflate"] }
zip-extract = "=0.1.3"
poise = "=0.6.2"
tokio = { version = "=1.54.1", features = ["macros", "rt-multi-thread", "process", "time", "signal", "fs"] }
sysinfo = "=0.29.11"
directories = "=5.0.1"
lnk = "0.6"
system_shutdown = "=4.1.0"
tracing = "=0.1.44"
tracing-subscriber = "=0.3.23"
chrono = "=0.4.45"
