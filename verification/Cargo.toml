[package]
name = "asn1_xer"
version = "0.1.0"
edition = "2021"
publish = false

[dependencies]
num-bigint = "0.4"
xml-rs = "0.8"
xml-no-std = "*"
