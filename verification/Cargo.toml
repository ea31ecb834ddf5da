[package]
name = "postgres_to_polars"
version = "0.1.0"
edition = "2021"
publish = false

[dependencies]
bb8 = "0.9"
byteorder = "1"
bytes = "1"
fallible-iterator = "0.2"
md5 = "0.7"
nanoid = "0.4"
polars = { version = "*", default-features = false, features = ["dtype-date", "dtype-datetime", "dtype-time"] }
postgres-protocol = "0.6"
thiserror = "*"
tokio = { version = "1", features = ["net", "io-util", "sync", "rt-multi-thread", "macros", "time"] }
