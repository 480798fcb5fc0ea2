[package]
name = "diskspace"
version = "0.1.0"
edition = "2021"
publish = false

[dependencies]
bytesize = "1"
crossterm = "0.28"
jwalk = "0.8"
libc = "0.2"
plist = "1"
ratatui = "0.29"
