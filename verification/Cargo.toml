[package]
name = "comically"
version = "0.1.5"
edition = "2021"
publish = false

[dependencies]
anyhow = "1"
arrayvec = "0.7"
clap = { version = "4", features = ["derive"] }
fast_image_resize = "5"
imageproc = "0.25"
log = "0.4"
rayon = "1"
serde = { version = "1", features = ["derive"] }
serde_json = "1"
tempfile = "3"
unrar = "0.5"
uuid = { version = "1", features = ["v4"] }
walkdir = "2"
webp = "0.3"
zip = { version = "2", default-features = false, features = ["deflate"] }
