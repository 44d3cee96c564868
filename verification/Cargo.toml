[package]
name = "astropi"
version = "0.1.0"
edition = "2021"
publish = false

[dependencies]
roxmltree = "0.20"
serde_json = "1"
base64 = "0.22"
image = { version = "0.24", default-features = false, features = ["jpeg", "png"] }
serde = { version = "1", features = ["derive"] }
thiserror = "1"
chrono = "0.4"
tokio = { version = "1", features = ["full"] }
tokio-stream = { version = "0.1", features = ["sync"] }
futures = "0.3"
actix-web = { version = "4", default-features = false, features = ["macros"] }
actix-cors = "0.7"
axum = { version = "0.7", features = ["ws"] }
tower-http = { version = "0.5", features = ["fs"] }
rand = "0.9"
nalgebra = "0.33"
argmin = "0.10"
argmin-math = { version = "0.4", features = ["vec"] }
serialport = { version = "4", default-features = false }
gphoto2 = "3"
