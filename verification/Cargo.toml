[package]
name = "yaffle"
version = "0.1.0"
edition = "2021"
publish = false

[dependencies]
async-trait = "0.1"
axum = { version = "0.6", default-features = false, features = ["http1", "query", "tokio", "matched-path", "original-uri"] }
chrono = "=0.4.45"
clap = { version = "4", default-features = false, features = ["std", "derive", "env", "help", "usage", "error-context"] }
cookie = { version = "=0.17.0", features = ["percent-encode"] }
dns-lookup = "2"
flate2 = "=1.1.10"
horrorshow = "0.8"
hyper = { version = "0.14", features = ["client", "server", "http1", "tcp", "runtime"] }
leptos = { version = "0.4", default-features = false, features = ["ssr", "serde"] }
leptos_axum = "0.4"
leptos_meta = { version = "0.4", default-features = false, features = ["ssr"] }
leptos_router = { version = "0.4", default-features = false, features = ["ssr"] }
listenfd = "1"
log = "0.4"
proc-macro2 = "1"
quote = "1"
serde = { version = "1", features = ["derive"] }
serde_json = "=1.0.154"
simple_logger = { version = "4", default-features = false, features = ["stderr"] }
syn = { version = "1", features = ["full", "extra-traits"] }
tantivy = { version = "=0.19.2", default-features = false }
thiserror = "1"
tokio = { version = "1", features = ["net", "rt-multi-thread", "macros", "sync", "time", "io-util"] }
tokio-stream = { version = "0.1", features = ["net", "time"] }
url = "=2.5.8"
warp = { version = "0.3", default-features = false }
wasm-bindgen = "0.2"
web-sys = { version = "0.3", features = ["Document", "HtmlDocument", "Window"] }

[dev-dependencies]
nom = "=7.1.3"
