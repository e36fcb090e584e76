[package]
name = "dsdl_parser"
version = "0.1.0"
edition = "2021"
publish = false

[dependencies]
inflections = "1"
getopts = "0.2"
quote = "1"
proc-macro2 = "1"
