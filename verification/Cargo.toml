[package]
name = "rsvp-format"
version = "0.1.0"
edition = "2021"
publish = false

[dependencies]
bincode-next = "*"
thiserror = "2"
