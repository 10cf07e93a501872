[package]
name = "waifu_calendar"
version = "0.1.0"
edition = "2021"
publish = false

[dependencies]
anyhow = "1"
axum = "0.7"
clap = { version = "4", features = ["derive"] }
env_logger = "0.11"
graphql_client = { version = "0.13", default-features = false }
handlebars = { version = "5", features = ["dir_source"] }
ics = "0.5"
log = "0.4"
moka = { version = "0.12", features = ["sync", "future"] }
recloser = "1"
reqwest = { version = "0.11", default-features = false, features = ["json", "rustls-tls"] }
serde = { version = "1", features = ["derive"] }
thiserror = "1"
time = "0.3"
tokio = { version = "1", features = ["macros", "net", "rt-multi-thread"] }
tower-http = { version = "0.5", features = ["fs"] }
uuid = { version = "1", features = ["v7"] }
