[package]
name = "morsh"
version = "0.1.0"
edition = "2021"
publish = false

[dependencies]
aes = "=0.8.4"
anyhow = "1"
base64 = "=0.22.1"
clap = { version = "=4.6.7", features = ["derive"] }
crossterm = { version = "=0.28.1", features = ["event-stream"] }
dirs = "=5.0.1"
env_logger = "=0.11.11"
flate2 = "=1.1.10"
futures = "0.3"
getrandom = "=0.2.17"
libc = "0.2"
libghostty-vt = "=0.2.2"
log = "0.4"
ocb3 = "=0.1.0"
portable-pty = "=0.9.0"
russh = "=0.65.0"
socket2 = { version = "=0.5.10", features = ["all"] }
subtle = "=2.6.1"
tokio = { version = "1", features = ["full"] }
tracing = "0.1"
tracing-appender = "0.2"
tracing-subscriber = { version = "0.3", features = ["env-filter"] }
windows-sys = { version = "0.59", features = ["Win32_Foundation", "Win32_Security", "Win32_System_Console", "Win32_System_Threading"] }

[dev-dependencies]
prost = "=0.13.5"
