[package]
name = "nom_bufreader"
version = "0.1.0"
edition = "2021"
publish = false

[dependencies]
nom = "7"
futures = "0.3"
futures-io = "0.3"
futures-util = { version = "0.3", features = ["io"] }
async-trait = "0.1"
pin-project-lite = "0.2"
