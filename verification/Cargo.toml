[package]
name = "msm_workload"
version = "0.1.0"
edition = "2021"
publish = false

[dependencies]
ark-bls12-377 = "0.3"
ark-ec = "0.3"
ark-ff = "0.3"
ark-std = "0.3"
rand = "0.8"
rand_chacha = "0.3"
