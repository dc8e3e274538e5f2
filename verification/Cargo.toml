[package]
name = "task_server"
version = "0.1.0"
edition = "2021"
publish = false

[dependencies]
actix-web = "4"
base64 = "=0.21.7"
chrono = { version = "=0.4.45", features = ["serde"] }
diesel = { version = "2", features = ["postgres", "r2d2", "chrono"] }
dotenv = "0.15"
lettre = "0.11"
serde = { version = "1", features = ["derive"] }
uuid = { version = "1", features = ["v4"] }
