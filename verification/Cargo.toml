[package]
name = "sublang"
version = "0.1.0"
edition = "2021"
publish = false

[dependencies]
aspasia = "*"
chardetng = "*"
clap = { version = "*", features = ["derive"] }
lrc = "*"
walkdir = "*"
whichlang = "*"
