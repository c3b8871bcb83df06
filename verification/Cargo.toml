[package]
name = "mathml"
version = "0.1.0"
edition = "2021"
publish = false

[dependencies]
regex = "1"
nom = "7"
nom_locate = "4"
serde = { version = "1", features = ["derive"] }
schemars = "0.8"
utoipa = "3"
derive-new = "0.5"
