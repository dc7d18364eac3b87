[package]
name = "gaze_foveation"
version = "0.1.0"
edition = "2021"
publish = false

[dependencies]
glam = "0.29"
log = "0.4"
parking_lot = "0.12"

[lints.rust]
unexpected_cfgs = "allow"
