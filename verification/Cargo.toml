[package]
name = "nttp"
version = "0.1.0"
edition = "2021"
publish = false

[dependencies]
curl = { version = "0.4", default-features = false }
libc = "0.2"
winapi = { version = "0.3", features = ["winhttp", "errhandlingapi", "libloaderapi", "winbase"] }
objc = "0.2"
block = "0.1"
objc-foundation = "0.1"
objc_id = "0.1"
