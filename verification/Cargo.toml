[package]
name = "kubi"
version = "0.1.0"
edition = "2021"
publish = false

[dependencies]
fontdue = "=0.8.0"
rect_packer = "=0.2.1"
hashbrown = "=0.14.5"
tinyset = "=0.4.16"
lz4_flex = "=0.11.6"
glam = "=0.25.0"
uflow = "=0.7.1"
nohash-hasher = "=0.2.0"
image = { version = "0.25", default-features = false, features = ["png"] }
