[package]
name = "ragrig_cli"
version = "1.0.0"
edition = "2021"
publish = false

# jiff, pdfsink-rs and signal-hook-registry are not called from here: their lines
# hold these dependencies of ragrig at versions that go together. The features of
# ragrig are its default ones: a store on disk, and Ollama for embeddings.
[dependencies]
anyhow = "1"
jiff = "=0.2.15"
log = "0.4"
pdfsink-rs = "=0.2.8"
ragrig = { version = "=1.0.0", default-features = false, features = ["internal", "ollama-embed"] }
reqwest = { version = "0.13", default-features = false }
serde_json = "1"
signal-hook-registry = "=1.4.2"
tokio = { version = "1", features = ["full"] }
