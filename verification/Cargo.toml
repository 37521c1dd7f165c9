[package]
name = "beertime"
version = "0.1.0"
edition = "2021"
publish = false

[dependencies]
z3 = "*"
chrono = "*"
serde = { version = "*", features = ["derive"] }
serde_json = "*"
clap = { version = "*", features = ["derive"] }
tera = "*"
