[package]
name = "vmpl_run"
version = "0.1.0"
edition = "2021"
publish = false

[dependencies]
structopt = "0.3"
rustyline = "9.1"
rustyline-derive = "0.6"
