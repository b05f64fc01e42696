[package]
name = "this_app"
version = "0.1.0"
edition = "2021"
publish = false

[dependencies]
url = "=2.5.8"
blake3 = "=1.8.7"
path-clean = "=1.0.1"
serde = { version = "=1.0.229", features = ["derive"] }
anyhow = "=1.0.104"
thiserror = "=1.0.69"
async-trait = "=0.1.92"
tokio = { version = "=1.54.1", features = ["full"] }
axum = "=0.6.20"
axum-server = { version = "=0.5.1", features = ["tls-rustls"] }
tower = { version = "=0.4.13", features = ["limit", "load-shed", "timeout", "util"] }
tower-http = { version = "=0.4.4", features = ["full"] }
rustls = "=0.21.12"
rustls-pemfile = "=1.0.4"
notify = "=6.1.1"
kanal = "=0.1.1"
moka = { version = "=0.12.16", features = ["future"] }
config = "=0.13.4"
tracing = "=0.1.44"
tracing-subscriber = { version = "=0.3.23", features = ["env-filter"] }
validator = "=0.16.1"
autometrics = { version = "0.6", features = ["prometheus-exporter"] }
leptos = { version = "=0.5.7", features = ["ssr"] }
leptos_axum = "=0.5.7"
leptos_meta = { version = "=0.5.7", features = ["ssr"] }
leptos_router = { version = "=0.5.7", features = ["ssr"] }
