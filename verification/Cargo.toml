[package]
name = "sentry_mosaic"
version = "0.1.0"
edition = "2021"
publish = false

[dependencies]
chrono = "0.4"
log = "0.4"
simplelog = "0.9"
structopt = "0.3"

[dev-dependencies]
regex = "1"
