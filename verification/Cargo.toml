[package]
name = "nexus_mod_manager"
version = "0.1.0"
edition = "2021"
publish = false

[dependencies]
dirs = "*"
urlencoding = "*"
serde = { version = "*", features = ["derive"] }
serde_json = "*"
zip = { version = "*", default-features = false, features = ["deflate"] }
sysinfo = "*"
opener = "*"
reqwest = { version = "*", default-features = false, features = ["json"] }
tokio = { version = "*", features = ["rt-multi-thread", "macros", "process", "io-util", "signal"] }
windows-sys = { version = "*", features = ["Win32_Foundation", "Win32_System_Threading", "Win32_Security"] }
