[package]
name = "cql_core"
version = "0.1.0"
edition = "2021"
publish = false

[dependencies]
cdrs = "*"
cdrs_helpers_derive = "*"
