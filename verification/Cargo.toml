[package]
name = "json-ld"
version = "0.1.0"
edition = "2021"
publish = false

[dependencies]
cc-traits = "*"
contextual = "0.1"
futures = "0.3"
generic-json = "0.7"
iref = "2.2"
json-syntax = "0.9"
locspan = "0.7"
rdf-types = "0.12"
thiserror = "1.0"
