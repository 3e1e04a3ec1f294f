[package]
name = "escp"
version = "0.1.0"
edition = "2021"
publish = false

[dependencies]
ansi-str = "=0.9.0"
clap = { version = "=4.6.7", features = ["derive"] }
humansize = "=2.1.3"
rusb = "=0.9.4"
synoptic = "=1.2.0"
time = { version = "=0.3.55", features = ["formatting"] }
