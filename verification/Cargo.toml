[package]
name = "rlbot_rocketsim"
version = "0.1.0"
edition = "2021"
publish = false

[dependencies]
glam = "=0.33.12"
rlbot = "=0.7.0"
rocketsim = "=0.2.12"
thiserror = "=2.0.21"
