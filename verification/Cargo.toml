[package]
name = "tlparse"
version = "0.1.0"
edition = "2021"
publish = false

[dependencies]
serde_json = "*"
serde = { version = "*", features = ["derive"] }
md-5 = "*"
chrono = "*"
fxhash = "*"
html-escape = "*"
syntect = { version = "*", default-features = false, features = ["default-fancy"] }
anyhow = "*"
clap = { version = "*", features = ["derive"] }
opener = "*"
tinytemplate = "*"
