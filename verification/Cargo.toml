[package]
name = "cddlconv"
version = "0.1.0"
edition = "2021"
publish = false

[dependencies]
anyhow = "*"
cddl = "*"
clap = { version = "*", features = ["derive"] }
convert_case = "*"
