[package]
name = "gitmirrors"
version = "0.1.0"
edition = "2021"
publish = false

[dependencies]
argon2 = { version = "=0.5.3", features = ["std"] }
rand = "=0.9.5"
chrono = "=0.4.45"
uuid = "=1.27.0"
diesel = { version = "=2.3.14", features = ["postgres", "r2d2", "chrono", "uuid"] }
dotenv = "=0.15.0"
