[package]
name = "iso"
version = "0.1.0"
edition = "2021"
publish = false

[dependencies]
async-trait = "=0.1.92"
axum = "=0.8.9"
base64 = "=0.22.1"
clap = { version = "=4.6.7", features = ["derive", "env"] }
flate2 = "=1.1.10"
futures-util = "0.3"
hickory-resolver = "=0.26.3"
hickory-server = { version = "=0.26.3", features = ["resolver"] }
hyper-util = { version = "=0.1.21", features = ["tokio", "server", "server-auto", "service", "http1"] }
libc = "=0.2.191"
rcgen = { version = "=0.13.2", default-features = false, features = ["crypto", "ring", "pem", "x509-parser"] }
reqwest = { version = "=0.12.28", default-features = false, features = ["json", "rustls-tls", "stream"] }
ring = "=0.17.14"
rusqlite = { version = "=0.41.1", features = ["bundled"] }
rustls = { version = "=0.23.46", default-features = false, features = ["ring", "std", "tls12"] }
rustls-pki-types = "=1.15.1"
serde = { version = "=1.0.229", features = ["derive"] }
serde_json = "=1.0.154"
tar = "=0.4.46"
tempfile = "3"
thiserror = "=2.0.21"
time = "=0.3.55"
tokio = { version = "=1.54.1", features = ["full"] }
tokio-rustls = { version = "=0.26.6", default-features = false, features = ["ring"] }
tokio-vsock = "=0.7.3"
toml = "=1.1.8"
tracing = "=0.1.44"
tracing-subscriber = { version = "=0.3.23", features = ["env-filter"] }
utoipa = { version = "5", features = ["axum_extras"] }
x509-parser = "=0.18.1"
