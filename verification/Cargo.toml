[package]
name = "keyring"
version = "0.1.0"
edition = "2021"
publish = false

[dependencies]
anyhow = "1"
async-trait = "0.1"
bitwarden-api-api = "*"
bitwarden-api-identity = "*"
bitwarden-crypto = "*"
clap = { version = "4", default-features = false, features = ["std", "derive", "help", "usage", "error-context"] }
futures-util = { version = "0.3", features = ["sink"] }
reqwest = { version = "0.12", default-features = false }
rsa = "0.9"
serde = { version = "1", features = ["derive"] }
serde_json = "1"
serde_path_to_error = "0.1"
sha2 = "0.10"
signature = "2"
ssh-agent-lib = "0.5"
ssh-key = { version = "0.6", features = ["rsa", "ed25519"] }
tokio = { version = "1", features = ["full"] }
tokio-util = { version = "0.7", features = ["codec"] }
toml = "*"
tracing = "0.1"
tracing-subscriber = { version = "0.3", default-features = false, features = ["env-filter", "fmt", "std"] }
uuid = "1"
