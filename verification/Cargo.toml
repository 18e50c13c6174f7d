[package]
name = "muscle"
version = "0.1.0"
edition = "2021"
publish = false

[dependencies]
approx = "0.3"
env_logger = "0.7"
gdk = "0.13"
gdk-pixbuf = "0.9"
gio = "0.9"
gtk = "0.9"
log = "0.4"
serde = { version = "1", features = ["derive"] }
serde_yaml = "0.8"
termion = "1.5"
