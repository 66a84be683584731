[package]
name = "swc_ecma_transforms_module"
version = "0.1.0"
edition = "2021"
publish = false

[dependencies]
swc_ecma_ast = "=0.90.20"
swc_common = "=0.27.16"
swc_atoms = "=0.4.43"
swc_ecma_visit = "=0.76.10"
swc_ecma_utils = "=0.100.3"
serde = { version = "=1.0.197", features = ["derive"] }
anyhow = "=1.0.104"
swc_macros_common = "=0.3.7"
