[package]
name = "kinesis_db"
version = "0.1.0"
edition = "2021"
publish = false

[dependencies]
base64 = "=0.13.1"
blowfish = { version = "=0.8.0", features = ["bcrypt"] }
fastrand = "=1.9.0"
magic-crypt = "=3.1.13"
pwhash = "=1.0.0"
rand = "=0.8.8"
regex = "=1.13.1"
uuid = { version = "=1.29.0", features = ["v4"] }
wasm-bindgen = "=0.2.129"
