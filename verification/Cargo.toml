[package]
name = "hopframe"
version = "0.1.0"
edition = "2021"
publish = false

[dependencies]
framehop = "=0.16.0"
procfs = "=0.18.0"
wholesym = "=0.8.1"
windows-sys = { version = "=0.61.2", features = ["Win32_Foundation", "Win32_System_LibraryLoader"] }

[dev-dependencies]
tokio = { version = "=1.54.1", features = ["rt"] }
