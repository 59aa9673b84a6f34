[package]
name = "hornystein"
version = "0.1.0"
edition = "2021"
publish = false

[dependencies]
image = { version = "0.25", default-features = false, features = ["jpeg", "gif"] }
minifb = { version = "0.27", default-features = false, features = ["x11"] }
mouse-rs = "*"
nalgebra-glm = "*"
rodio = { version = "0.20", default-features = false, features = ["mp3"] }
