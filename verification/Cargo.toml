[package]
name = "bezier_surface"
version = "0.1.0"
edition = "2021"
publish = false

[dependencies]
gtk = "0.9"
gdk = "0.13"
gio = "0.9"
glib = "0.10"
cairo-rs = "0.9"
