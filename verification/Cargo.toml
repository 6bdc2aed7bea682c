[package]
name = "crs"
version = "0.1.0"
edition = "2021"
publish = false

[dependencies]
colored = "=3.1.1"
inkwell = { version = "=0.11.0", features = ["llvm14-0-prefer-dynamic"] }
