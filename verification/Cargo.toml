[package]
name = "tileforge-crs"
version = "0.2.0"
edition = "2021"
publish = false

[dependencies]
proj4rs = { version = "*", features = ["crs-definitions"] }
thiserror = "*"
