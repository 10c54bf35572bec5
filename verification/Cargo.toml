[package]
name = "wifi_failover"
version = "0.1.0"
edition = "2021"
publish = false

[dependencies]
persy = "=1.8.1"
keyring = { version = "=4.2.0", features = ["v1"] }
wifiscanner = "=0.5.1"
wifi-rs = "=0.2.4"
