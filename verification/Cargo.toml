[package]
name = "llama-tune"
version = "0.1.0"
edition = "2021"
publish = false

[dependencies]
anyhow = "=1.0.104"
bytesize = { version = "=2.7.0", default-features = false }
crossterm = { version = "=0.28.1", features = ["event-stream"] }
dirs = "=5.0.1"
futures-util = "=0.3.34"
nvml-wrapper = "=0.10.0"
ratatui = "=0.29.0"
reqwest = { version = "=0.12.28", default-features = false, features = ["json", "stream", "rustls-tls"] }
serde = { version = "=1.0.229", features = ["derive"] }
serde_json = "=1.0.154"
sysinfo = { version = "=0.32.1", default-features = false, features = ["system"] }
tokio = { version = "=1.54.1", features = ["full"] }
windows = { version = "=0.57.0", features = ["Win32_Foundation", "Win32_Graphics_Dxgi", "Win32_Graphics_Dxgi_Common"] }
