[package]
name = "mesh_to_sdf"
version = "0.1.0"
edition = "2021"
publish = false

[dependencies]
itertools = "*"
float-cmp = "*"
bvh = "*"
nalgebra = "*"
rstar = "*"
