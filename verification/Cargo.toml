[package]
name = "input_actions"
version = "0.1.0"
edition = "2021"
publish = false

[dependencies]
crossbeam-channel = "*"
gilrs = "*"
enumset = "*"
