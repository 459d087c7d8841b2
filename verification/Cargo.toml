[package]
name = "archivist"
version = "0.1.0"
edition = "2021"
rust-version = "1.95"
publish = false

[dependencies]
async-trait = "=0.1.92"
dotenv = "=0.15.0"
dptree = "=0.3.0"
env_logger = "=0.10.2"
git2 = "=0.18.3"
log = "=0.4.34"
regex = "=1.13.1"
reqwest = "=0.11.27"
serde = { version = "=1.0.229", features = ["derive"] }
serde_json = "=1.0.154"
takecell = "<0.1.2"
teloxide = { version = "=0.12.2", features = ["macros"] }
tokio = { version = "=1.54.1", features = ["rt-multi-thread", "macros", "fs"] }
