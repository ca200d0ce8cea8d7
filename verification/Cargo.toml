[package]
name = "organizer_core"
version = "0.1.0"
edition = "2021"
publish = false

[dependencies]
directories = "*"
fltk = "1"
log = "0.4"
open = "*"
parking_lot = "0.12"
simplelog = "*"
