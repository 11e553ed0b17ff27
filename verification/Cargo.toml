[package]
name = "execution_engine"
version = "0.1.0"
edition = "2021"
publish = false

[dependencies]
parking_lot = "0.12"
clap = "2.34"
