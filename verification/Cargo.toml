[package]
name = "roslibrust_serde_rosmsg"
version = "0.6.0"
edition = "2021"
publish = false

[dependencies]
byteorder = "1.5"
serde = "1"
