[package]
name = "thermal_printer_rs"
version = "0.1.0"
edition = "2021"
publish = false

[dependencies]
escpos = { version = "*", features = ["codes_2d", "barcodes"] }
tokio = { version = "1", features = ["sync", "rt", "rt-multi-thread", "time", "net", "io-util", "macros"] }
tokio-util = "0.7"
thiserror = "*"
nusb = "*"
btleplug = "*"
uuid = "1"
async-trait = "*"
parking_lot = "*"
once_cell = "*"
tracing = "*"
flutter_rust_bridge = "*"
