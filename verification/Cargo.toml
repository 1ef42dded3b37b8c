[package]
name = "schnorr_fhe"
version = "0.1.0"
edition = "2021"
publish = false

[dependencies]
tfhe = { version = "=0.6.4", default-features = false, features = ["integer", "x86_64-unix"] }
num-bigint = "=0.4.8"
num-traits = "=0.2.19"
num = "=0.4.3"
rand = "=0.8.8"
chrono = "=0.4.45"

[dev-dependencies]
miller_rabin = "=1.1.1"
