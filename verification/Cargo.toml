[package]
name = "captcha_gate"
version = "0.1.0"
edition = "2021"
publish = false

[dependencies]
rand = "0.8"
actix-web = { version = "4", default-features = false, features = ["macros", "cookies"] }
time = "0.3"
chrono = { version = "0.4", default-features = false, features = ["clock"] }
futures-util = { version = "0.3", default-features = false, features = ["std"] }
