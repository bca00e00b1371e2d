[package]
name = "simul"
version = "0.1.0"
edition = "2021"
publish = false

[dependencies]
log = "=0.4.34"
plotters = { version = "0.3", default-features = false, features = ["bitmap_backend", "bitmap_encoder", "line_series"] }
rand = "=0.9.5"
rand_distr = "=0.5.1"
