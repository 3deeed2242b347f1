[package]
name = "flatten_repo"
version = "0.1.0"
edition = "2021"
publish = false

[dependencies]
atty = "0.2"
clap = { version = "4", features = ["derive"] }
encoding_rs = "0.8"
encoding_rs_io = "0.1"
git2 = { version = "*", default-features = false }
glob = "0.3"
quick-xml = "*"
thiserror = "*"
yash-fnmatch = "*"
