[package]
name = "rustberrypi"
version = "0.1.0"
edition = "2021"
publish = false

[dependencies]
bmp = "0.5"
rppal = "0.11"
ureq = "1"
serde = { version = "1", features = ["derive"] }
serde_derive = "1"
serde_json = "1"
ctrlc = "3"
failure = "0.1"
influx_db_client = "0.3"
structopt = "0.2"
url = "1"
env_logger = "0.6"
log = "0.4"
hyper = "0.12"
hyper-tls = "0.3"
