[package]
name = "lukosbot"
version = "0.1.0"
edition = "2021"
publish = false

[dependencies]
regex = "=1.13.1"
url = "=2.5.8"
anyhow = "=1.0.104"
async-trait = "=0.1.92"
tokio = { version = "=1.54.1", features = ["rt-multi-thread", "macros", "sync", "signal", "time"] }
tracing = "=0.1.44"
tracing-subscriber = { version = "=0.3.23", features = ["env-filter", "fmt"] }
serde = { version = "=1.0.229", features = ["derive"] }
serde_json = "=1.0.154"
toml = "=0.8.23"
config = { version = "=0.14.1", default-features = false, features = ["toml"] }
reqwest = { version = "=0.12.28", default-features = false, features = ["json", "rustls-tls", "socks"] }
serenity = { version = "=0.12.5", default-features = false, features = ["builder", "client", "gateway", "http", "model", "rustls_backend"] }
teloxide = { version = "=0.13.0", default-features = false, features = ["rustls"] }
# teloxide-core depends on takecell, whose release 0.1.2 asks for rustc 1.96:
# the release before it is held, for teloxide to build.
takecell = "=0.1.1"

[dev-dependencies]
azalea-brigadier = "=0.16.0"
