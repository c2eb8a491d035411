[package]
name = "ul_mir"
version = "0.1.0"
edition = "2021"
publish = false

[dependencies]
escape_string = "=0.1.2"
