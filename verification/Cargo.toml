[package]
name = "telid"
version = "0.1.0"
edition = "2021"
publish = false

[dependencies]
rustc_apfloat = "=0.1.3"
ryu = "*"
byteorder = "*"
ariadne = "=0.3.0"
inquire = "=0.6.2"
