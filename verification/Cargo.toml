[package]
name = "mod2appleii"
version = "0.1.0"
edition = "2021"
publish = false

[dependencies]
modfile = "*"
docopt = "*"
serde = { version = "*", features = ["derive"] }
serde_derive = "*"
