[package]
name = "convis"
version = "0.1.0"
edition = "2021"
publish = false

[dependencies]
anyhow = "=1.0.104"
aya = "=0.14.0"
base64 = "=0.23.1"
env_logger = "=0.11.11"
flate2 = "=1.1.10"
gumdrop = "=0.8.1"
hostname = "=0.4.2"
hyper-util = "=0.1.21"
k8s-cri = "=0.11.0"
libc = "=0.2.190"
log = "=0.4.34"
parking_lot = "=0.12.5"
procfs = "=0.18.0"
prost = "=0.14.4"
reqwest = "=0.13.5"
serde = { version = "=1.0.229", features = ["derive"] }
serde_json = "=1.0.151"
shiplift = "=0.7.0"
snap = "=1.1.2"
tokio = { version = "=1.53.2", features = ["full"] }
tonic = "=0.14.6"
tower = "=0.5.3"
