[package]
name = "centerpiece"
version = "0.1.0"
edition = "2021"
publish = false

[dependencies]
anyhow = "=1.0.104"
async-channel = "=2.5.0"
battery = "=0.7.8"
chrono = "=0.4.45"
clap = { version = "=4.6.7", features = ["derive", "env"] }
freedesktop-desktop-entry = "=0.8.4"
fuzzy-matcher = "=0.3.7"
hex_color = "=3.0.0"
lazy_static = "=1.5.1"
libc = "=0.2.191"
log = "=0.4.35"
lz4_flex = "=0.14.0"
mpd = "=0.1.0"
niri-ipc = "=26.4.0"
regex = "=1.13.1"
rust_search = "=2.1.0"
serde = { version = "=1.0.229", features = ["derive"] }
serde_ini = "=0.2.0"
serde_json = "=1.0.154"
serde_yaml = "=0.9.34+deprecated"
simple_logger = "=5.2.0"
sqlite = "=0.37.4"
swayipc = "=4.0.0"
sysinfo = "=0.40.1"
walkdir = "=2.5.0"
dbus = { version = "*", features = ["vendored"] }
networkmanager = "*"
