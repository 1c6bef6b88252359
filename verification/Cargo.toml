[package]
name = "lingxiao_core"
version = "0.1.0"
edition = "2021"
publish = false

[dependencies]
fastrand = "=2.5.0"
libc = "=0.2.191"
rusqlite = { version = "=0.32.1", features = ["bundled"] }
serde = { version = "=1.0.229", features = ["derive"] }
serde_json = "=1.0.154"
sha1 = "=0.10.7"
thiserror = "=1.0.69"
tokio = { version = "=1.54.1", features = ["macros", "rt-multi-thread"] }
wait-timeout = "=0.2.1"
windows-sys = { version = "0.52", features = ["Win32_Foundation", "Win32_System_Threading"] }
