[package]
name = "handy_core"
version = "0.1.0"
edition = "2021"
publish = false

[dependencies]
arrayvec = "=0.7.8"
rand = "=0.8.8"
rand_pcg = "=0.3.1"
rand_seeder = "=0.2.3"
clap = { version = "=4.6.7", features = ["derive"] }
colored = "=2.2.0"
itertools = "0.12"
