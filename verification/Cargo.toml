[package]
name = "photo_fix"
version = "0.1.0"
edition = "2021"
publish = false

[dependencies]
kamadak-exif = "0.5"
rayon = "1"
native-windows-gui = "1"
native-windows-derive = "1"
