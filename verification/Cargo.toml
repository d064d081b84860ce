[package]
name = "gpui_core"
version = "0.1.0"
edition = "2021"
publish = false

[dependencies]
etagere = "*"
flume = "*"
once_cell = "*"
parking_lot = "*"
log = "*"
