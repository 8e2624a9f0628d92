[package]
name = "timhatdiehandandermaus"
version = "0.1.0"
edition = "2021"
publish = false

[dependencies]
anyhow = "=1.0.104"
log = "=0.4.34"
reqwest = { version = "=0.11.27", default-features = false, features = ["json", "rustls-tls"] }
serde = { version = "=1.0.229", features = ["derive"] }
serde_json = "=1.0.154"
# Not used by this crate's own code: teloxide-core 0.4.5 depends on takecell,
# and the release after this one asks for a newer compiler than is at hand.
takecell = "=0.1.1"
teloxide = { version = "=0.7.3", default-features = false, features = ["macros", "auto-send", "ctrlc_handler", "dispatching2", "rustls"] }
# Not used by this crate's own code: teloxide-core 0.4.5 uses the codec of
# tokio-util without switching that feature on.
tokio-util = { version = "=0.6.10", features = ["codec"] }
tokio = { version = "=1.54.1", features = ["rt-multi-thread", "macros"] }
url = "=2.5.8"
