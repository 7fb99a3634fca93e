[package]
name = "exa"
version = "0.1.0"
edition = "2021"
publish = false

[dependencies]
git2 = { version = "*", default-features = false }
glob = "=0.3.4"
natord = "=1.0.9"
regex = "=1.13.1"
shell-words = "=1.1.1"
unicode-width = "=0.1.14"
