[package]
name = "minifier_pure"
version = "0.1.0"
edition = "2021"
publish = false

[dependencies]
swc_ecma_ast = "*"
swc_ecma_utils = "*"
swc_ecma_visit = "*"
swc_common = "*"
swc_atoms = "*"
log = "*"
rayon = "*"
