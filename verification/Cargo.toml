[package]
name = "jam"
version = "0.1.0"
edition = "2021"
publish = false

[dependencies]
rspotify = { version = "=0.16.1", default-features = false, features = ["client-reqwest", "reqwest-rustls-tls"] }
cuid2 = "=0.1.6"
rmp-serde = "=1.3.1"
serde = { version = "=1.0.229", features = ["derive"] }
tokio = { version = "=1.54.1", features = ["rt-multi-thread", "macros", "sync"] }
futures-util = "=0.3.34"
axum = { version = "=0.7.9", features = ["ws"] }
sqlx = { version = "=0.9.0", default-features = false, features = ["postgres", "runtime-tokio"] }
leptos = { version = "0.6", features = ["ssr"] }
leptos_axum = "0.6"
web-sys = { version = "0.3", features = ["Window", "Document", "Element", "HtmlElement", "CssStyleDeclaration"] }
icondata = "*"
rust_spotify_web_playback_sdk = "*"
