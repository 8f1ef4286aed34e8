[package]
name = "toolbelt"
version = "0.1.0"
edition = "2021"
publish = false

[dependencies]
glob = "0.3"
globwalk = "0.9"
Inflector = "0.11"
log = "0.4"
