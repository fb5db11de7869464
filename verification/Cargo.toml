[package]
name = "css_parser"
version = "0.1.0"
edition = "2021"
publish = false

[dependencies]
argh = "=0.1.19"
base64 = "=0.23.1"
codespan-reporting = "=0.13.1"
