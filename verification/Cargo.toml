[package]
name = "spider"
version = "0.1.0"
edition = "2021"
publish = false

[dependencies]
anyhow = "1"
ashpd = { version = "0.9", features = ["gtk4"] }
dircpy = "0.3"
futures = "0.3"
gdk-pixbuf = "0.20"
glib = "0.20"
gtk4 = "0.9"
image = "0.25"
isahc = "1"
lazy_static = "1"
libadwaita = { version = "0.7", features = ["v1_6"] }
open = "5"
rand = "0.8"
scraper = "0.20"
url = "2"
webkit6 = "0.4"
