[package]
name = "starry_res"
version = "0.1.0"
edition = "2021"
publish = false

[dependencies]
flatten_objects = "=0.2.4"
bitmaps = "=3.2.1"
