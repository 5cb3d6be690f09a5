[package]
name = "ui24_session"
version = "0.1.0"
edition = "2021"
publish = false

[dependencies]
flacenc = "=0.5.1"
symphonia = { version = "=0.5.5", features = ["mp3", "aiff"] }
serde = { version = "=1.0.229", features = ["derive"] }
serde_json = "=1.0.154"
clap = { version = "=4.6.7", features = ["derive"] }
zip = { version = "=2.6.1", default-features = false, features = ["deflate"] }
rusty_mp3 = "=1.0.5"
