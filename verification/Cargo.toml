[package]
name = "pixify"
version = "0.1.0"
edition = "2021"
publish = false

[dependencies]
palette_extract = "0.1"
lab = "0.11"
image = { version = "0.24", default-features = false, features = ["png", "jpeg"] }
actix-web = { version = "4", default-features = false, features = ["macros"] }
actix-multipart = { version = "0.6", default-features = false }
futures-util = "0.3"
serde = { version = "1", features = ["derive"] }
thiserror = "1"
