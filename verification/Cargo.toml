[package]
name = "gpui_mobile"
version = "0.1.0"
edition = "2021"
publish = false

[dependencies]
anyhow = "1"
cosmic-text = "0.14"
log = "0.4"
parking_lot = "0.12"
rand = "0.9"
serde_json = "1"
smallvec = "1"
swash = "0.2"
unicode-segmentation = "1"
