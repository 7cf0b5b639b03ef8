[package]
name = "arp_scanner"
version = "0.1.0"
edition = "2021"
publish = false

[dependencies]
ipnetwork = "*"
pnet = "*"
clap = "2"
prettytable-rs = "*"
