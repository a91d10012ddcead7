[package]
name = "perl_lsp_runtime"
version = "0.1.0"
edition = "2021"
publish = false

[dependencies]
regex = "=1.13.1"
url = "=2.5.8"
serde_json = "=1.0.154"
parking_lot = "=0.12.5"
md5 = "0.7"
