[package]
name = "pxid"
version = "0.1.0"
edition = "2021"
publish = false

[dependencies]
md5 = "*"
rand = "*"
sysctl = "*"
serde = { version = "*", features = ["derive"] }
thiserror = "*"
async-graphql = "*"
