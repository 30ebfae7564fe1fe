[package]
name = "gbm_sim"
version = "0.1.0"
edition = "2021"
publish = false

[dependencies]
chrono = "0.4"
csv = "1"
num_cpus = "1"
rand = "0.8"
rand_distr = "0.4"
eframe = { version = "0.21", default-features = false }
egui = { version = "0.21", default-features = false }
egui_extras = { version = "0.21", default-features = false }
