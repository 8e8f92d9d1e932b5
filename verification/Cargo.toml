[package]
name = "fetching_core"
version = "0.1.0"
edition = "2021"
publish = false

[dependencies]
sanitize-filename = "=0.6.0"
pathdiff = "=0.2.3"
uuid = { version = "=1.29.0", features = ["v4", "serde"] }
hex = "=0.4.3"
image = { version = "=0.25.10", default-features = false, features = ["jpeg", "png"] }
glob = "=0.3.4"
serde = { version = "=1.0.229", features = ["derive"] }
serde_json = "=1.0.154"
anyhow = "=1.0.104"
tokio = { version = "=1.54.1", features = ["full"] }
sled = "=0.34.7"
rusqlite = { version = "=0.41.1", features = ["bundled"] }
chrono = "=0.4.45"
tempfile = "=3.27.0"
clap = { version = "=4.6.7", features = ["derive"] }
tracing = "=0.1.44"
tracing-subscriber = { version = "=0.3.23", features = ["env-filter"] }
lofty = "=0.25.5"
librespot-core = "=0.8.0"
librespot-metadata = "=0.8.0"
librespot-oauth = "=0.8.0"
librespot-audio = "=0.8.0"
# Not called here: held at the version that librespot-core's build script
# (through its build dependency vergen-gitcl) compiles against.
vergen = "=9.0.6"
moka = { version = "=0.12.16", features = ["future"] }
futures = "=0.3.34"
async-trait = "=0.1.92"
once_cell = "=1.21.4"
