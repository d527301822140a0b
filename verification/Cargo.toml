[package]
name = "rpm_macro"
version = "0.1.0"
edition = "2021"
publish = false

[dependencies]
url = "2"
num_cpus = "1"
tracing = "0.1"
