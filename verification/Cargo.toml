[package]
name = "archive"
version = "0.1.0"
edition = "2021"
publish = false

[dependencies]
actix-web = { version = "4", default-features = false }
chrono = { version = "0.4", default-features = false }
libflate = "1"
serde = { version = "1", features = ["derive"] }
streaming-zip = "*"
strum = { version = "*", features = ["derive"] }
tar = "0.4"

[dev-dependencies]
zip = { version = "*", default-features = false, features = ["deflate"] }
