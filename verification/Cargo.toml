[package]
name = "module_loader"
version = "0.1.0"
edition = "2021"
publish = false

[dependencies]
deno_semver = "*"
deno_ast = { version = "*", default-features = false }
