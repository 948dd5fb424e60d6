[package]
name = "krunner_lutris"
version = "0.1.0"
edition = "2021"
publish = false

[dependencies]
anyhow = "=1.0.104"
dbus = { version = "=0.9.12", features = ["vendored"] }
dbus-crossroads = "=0.5.3"
nix = { version = "=0.31.3", features = ["signal"] }
open = "=5.4.4"
rusqlite = { version = "=0.40.2", features = ["bundled"] }
xdg = "=3.0.0"
