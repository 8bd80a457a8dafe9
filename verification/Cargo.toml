[package]
name = "sss_fontbuild"
version = "0.1.0"
edition = "2021"
publish = false

[dependencies]
sega_cmp = "*"
png = "*"
glob = "*"
