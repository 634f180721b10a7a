[package]
name = "rendezvous"
version = "0.1.0"
edition = "2021"
publish = false

[dependencies]
rand = "0.8"
actix = "0.13"
actix-web = { version = "4", features = ["openssl"] }
actix-web-actors = "4"
actix-files = "0.6"
dotenv = "0.15"
openssl = "0.10"
