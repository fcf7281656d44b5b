[package]
name = "es_wifi"
version = "0.1.0"
edition = "2021"
publish = false

[dependencies]
drogue-embedded-timer = "=0.2.1"
drogue-network = "=0.2.0"
drogue-nom-utils = "=0.1.0"
embedded-hal = { version = "=0.2.7", features = ["unproven"] }
embedded-time = "=0.10.1"
heapless = "=0.5.6"
nb = "=1.1.0"
nom = "=5.1.3"
