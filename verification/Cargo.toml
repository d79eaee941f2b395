[package]
name = "pic_url"
version = "0.1.0"
edition = "2021"
publish = false

[dependencies]
actix-files = "0.6"
actix-web = "4"
image = { version = "0.25", default-features = false, features = ["bmp", "gif", "ico", "jpeg", "png", "webp"] }
mime_guess = "2"
serde = { version = "1", features = ["derive"] }
serde_json = "1"
