[package]
name = "memory_source"
version = "0.1.0"
edition = "2021"
publish = false

[dependencies]
arrow = "54"
datafusion-common = "46"
datafusion-execution = "46"
datafusion-physical-expr = "46"
futures = "0.3"
sqllogictest = "*"
