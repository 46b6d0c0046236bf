[package]
name = "asset_libraries"
version = "0.1.0"
edition = "2021"
publish = false

[dependencies]
bevy_app = "=0.5.0"
bevy_core = "=0.5.0"
bevy_ecs = "=0.5.0"
bevy_input = "=0.5.0"
gl = "=0.14.0"
glam = "=0.13.1"
glutin = "=0.26.0"
log = "=0.4.34"
# The derive crates of bevy 0.5 use syn's full parser without asking for it;
# this macro crate turns it on for every macro crate of the build.
num_enum_derive = { version = "=0.4.3", features = ["complex-expressions"] }
