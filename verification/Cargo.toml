[package]
name = "showcase_curator"
version = "0.1.0"
edition = "2021"
publish = false

[dependencies]
anyhow = "1"
obfstr = "0.4"
poise = "0.6"
rand = "0.9"
rayon = "1"
serenity = "0.12"
tokio = { version = "1", features = ["macros", "rt-multi-thread", "process", "fs"] }
