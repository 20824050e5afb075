[package]
name = "pot-gtk"
version = "0.1.0"
edition = "2021"
publish = false

[dependencies]
getrandom = "0.3"
md-5 = "0.10"
sha2 = "0.10"
urlencoding = "2"
base64 = "0.22"
rusqlite = { version = "0.32", features = ["bundled"] }
lingua = { version = "1.6", default-features = false, features = ["chinese", "japanese", "english", "korean", "french", "spanish", "german", "russian", "italian", "portuguese", "turkish", "arabic", "vietnamese", "thai", "indonesian", "malay", "hindi", "mongolian", "bokmal", "nynorsk", "persian", "ukrainian"] }
serde = { version = "1", features = ["derive"] }
serde_json = "1"
reqwest = { version = "0.12", default-features = false, features = ["blocking", "json", "rustls-tls"] }
tokio = { version = "1", features = ["rt-multi-thread", "sync", "time"] }
tiny_http = "0.12"
dirs = "5"
log = "0.4"
env_logger = "0.11"
thiserror = "1"
anyhow = "1"
zip = { version = "2", default-features = false, features = ["deflate"] }
image = { version = "0.25", default-features = false, features = ["png"] }
keyring = { version = "3", features = ["linux-native"] }
arboard = "3"

[dev-dependencies]
tempfile = "3"
