[package]
name = "juniper_from_schema_code_gen"
version = "0.1.0"
edition = "2021"
publish = false

[dependencies]
heck = "0.3"
syn = "1"
graphql-parser = "0.4"
quote = "1"
proc-macro2 = "1"
