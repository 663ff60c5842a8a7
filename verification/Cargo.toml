[package]
name = "prop_amm"
version = "0.1.0"
edition = "2021"
publish = false

[dependencies]
anyhow = "1"
clap = { version = "4", features = ["derive"] }
libloading = "0.8"
pinocchio = "0.7"
proc-macro2 = "1"
rand = "0.8"
rand_distr = "0.4"
rand_pcg = "0.3"
rayon = "1"
solana_rbpf = "0.8"
syn = { version = "2", features = ["full"] }
thiserror = "1"
