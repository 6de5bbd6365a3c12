[package]
name = "regex_rewrite"
version = "0.1.0"
edition = "2021"
publish = false

[dependencies]
regex = "=1.13.1"
fancy-regex = "=0.19.2"
nu-plugin = "=0.112.2"
nu-protocol = "=0.112.2"
arboard = "=3.7.0"
rand_mt = "=6.1.0"
scraper = "=0.29.0"
