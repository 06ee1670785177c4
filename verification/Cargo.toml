[package]
name = "mc_protocol"
version = "0.1.0"
edition = "2021"
publish = false

[dependencies]
byteorder = "=1.5.0"
num-traits = "=0.2.19"
hematite-nbt = "=0.5.2"
rand = "=0.8.8"
miniz_oxide = "=0.9.1"
tokio = { version = "=1.54.1", features = ["net", "io-util", "rt-multi-thread", "macros"] }
yaml-rust = "=0.4.5"
