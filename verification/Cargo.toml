[package]
name = "todolist"
version = "0.1.0"
edition = "2021"
publish = false

[dependencies]
password-auth = "*"
validator = "*"
