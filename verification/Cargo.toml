[package]
name = "dawlib"
version = "0.1.0"
edition = "2021"
publish = false

[dependencies]
cpal = "0.13"
crossbeam = "0.8"
hound = "3"
parking_lot = "0.12"
rubato = "0.12"
symphonia = "0.5"
tokio = { version = "1", features = ["macros", "rt-multi-thread", "sync"] }
