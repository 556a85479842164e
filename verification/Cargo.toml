[package]
name = "alphavantage"
version = "0.1.0"
edition = "2021"
publish = false

[dependencies]
serde_json = "1"
select = "=0.6.1"
ureq = "=3.4.2"
reqwest = { version = "=0.12.28", default-features = false, features = ["blocking"] }
