[package]
name = "rdr2photobackup"
version = "0.1.0"
edition = "2021"
publish = false

[dependencies]
walkdir = "2"
