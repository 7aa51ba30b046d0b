[package]
name = "aparte"
version = "0.1.0"
edition = "2021"
publish = false

[dependencies]
chrono = "=0.4.45"
env_logger = "=0.7.1"
futures = "=0.3.34"
jid = "=0.9.2"
linked_hash_set = "=0.1.6"
log = "=0.4.34"
rpassword = "=4.0.5"
termion = "=1.5.6"
tokio = { version = "=1.54.1", features = ["rt"] }
tokio-xmpp = "=3.0.0"
uuid = { version = "=0.8.2", features = ["v4"] }
xmpp-parsers = "=0.18.1"
