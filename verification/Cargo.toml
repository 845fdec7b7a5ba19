[package]
name = "d7os"
version = "0.1.0"
edition = "2021"
publish = false

[dependencies]
hashbrown = "*"
pinecone = "*"
serde = { version = "1", features = ["derive"] }
spin = "*"
cpuio = "*"
log = "*"
