[package]
name = "tacoshell"
version = "0.1.0"
edition = "2021"
publish = false

[dependencies]
sha2 = "*"
getrandom = "*"
data-encoding = "*"
egui = { version = "*", default-features = false, features = ["default_fonts"] }
eframe = { version = "*", default-features = false, features = ["default_fonts", "glow", "x11"] }
vte = "*"
toml = "*"
serde = { version = "*", features = ["derive"] }
zeroize = "*"
tokio = { version = "*", features = ["rt-multi-thread", "net", "time", "sync", "macros"] }
russh = { version = "*", default-features = false, features = ["ring"] }
portable-pty = "*"
image = { version = "*", default-features = false, features = ["png"] }
