[package]
name = "saturn_payouts"
version = "0.1.0"
edition = "2021"
publish = false

[dependencies]
base32 = "=0.4.0"
base64 = "=0.21.7"
blake2b_simd = "=1.0.5"
chrono = "=0.4.45"
clap = { version = "=4.6.7", features = ["derive"] }
csv = "=1.4.0"
dotenv = "0.15"
ethers = { version = "=2.0.14", default-features = false }
fvm_ipld_encoding = "=0.5.4"
fvm_shared = "=4.8.4"
hex = "=0.4.3"
log = "=0.4.34"
num-traits = "=0.2.19"
once_cell = "=1.21.4"
rpassword = "7"
serde = { version = "=1.0.229", features = ["derive"] }
serde_json = "=1.0.154"
tabled = "0.12"
tokio = { version = "=1.54.1", features = ["macros", "rt-multi-thread", "time"] }
url = "=2.5.8"
