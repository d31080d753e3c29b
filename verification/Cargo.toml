[package]
name = "file_blockchain"
version = "0.1.0"
edition = "2021"
publish = false

[dependencies]
base64-url = "=1.4.13"
ctrlc = "=3.5.2"
datetime = "=0.5.2"
ed25519-dalek = "=1.0.1"
eframe = { version = "0.21", default-features = false, features = ["glow", "default_fonts"] }
egui = { version = "0.21", default-features = false }
rand = "=0.7.3"
reqwest = { version = "=0.11.27", default-features = false, features = ["blocking"] }
serde = { version = "=1.0.229", features = ["derive"] }
serde_json = "=1.0.154"
sha2 = "=0.9.9"
tree_magic_fork = "=0.2.2"
tungstenite = { version = "=0.20.1", default-features = false, features = ["handshake"] }
