[package]
name = "hasher"
version = "0.2.0"
edition = "2021"
publish = false

[dependencies]
sha2 = "*"
radix_fmt = "*"
serde = { version = "*", features = ["derive"] }
reqwest = { version = "*", default-features = false, features = ["blocking", "json"] }
structopt = "0.3"
num_cpus = "*"
tui = { version = "0.19", default-features = false, features = ["crossterm"] }
crossterm = "0.25"
