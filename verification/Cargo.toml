[package]
name = "sarge_launcher"
version = "0.1.0"
edition = "2021"
publish = false

[dependencies]
image = "0.25"
is_executable = "1"
itertools = "0.14"
log = "0.4"
rayon = "1"
serde = { version = "1", features = ["derive"] }
serde_json = "1"
zip = "2"
