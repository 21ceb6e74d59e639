[package]
name = "snm_fdbcli"
version = "0.1.0"
edition = "2021"
publish = false

[dependencies]
foundationdb = { version = "=0.10.0", features = ["embedded-fdb-include", "fdb-7_3"] }
foundationdb-tuple = "=0.10.0"
hex = "=0.4.3"
clap = { version = "=4.6.7", features = ["derive"] }
rustyline = "=19.0.0"
tokio = { version = "=1.54.1", features = ["macros", "rt-multi-thread"] }
