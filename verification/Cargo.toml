[package]
name = "monacebot"
version = "0.1.0"
edition = "2021"
publish = false

[dependencies]
minidom = "=0.19.0"
reqwest = "=0.12.28"
tokio = { version = "=1.53.2", features = ["rt-multi-thread", "macros"] }
teloxide = "=0.17.0"
log = "=0.4.34"
chrono = "=0.4.45"
takecell = "=0.1.1"
