[package]
name = "qbittorrent_web_api_gen"
version = "0.1.0"
edition = "2021"
publish = false

[dependencies]
case = "*"
