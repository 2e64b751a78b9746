[package]
name = "kacf"
version = "0.1.0"
edition = "2021"
publish = false

[dependencies]
regex = "*"
serde = { version = "*", features = ["derive"] }
serde_json = "*"
rand = "*"
anyhow = "*"
tokio = { version = "*", features = ["rt-multi-thread", "macros", "process", "time", "sync", "io-util", "fs"] }
actix-web = "*"
crossbeam-channel = "*"
async-stream = "*"
clap = { version = "*", features = ["derive"] }
wait-timeout = "*"
reqwest = { version = "*", features = ["json", "stream"] }
lettre = "*"
enigo = "*"
