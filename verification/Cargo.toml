[package]
name = "prefs_store"
version = "0.1.0"
edition = "2021"
publish = false

[dependencies]
anyhow = "*"
sys-locale = "*"
unic-langid = "*"
