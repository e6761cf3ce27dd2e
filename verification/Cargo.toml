[package]
name = "graphene_metrics"
version = "0.1.0"
edition = "2021"
publish = false

[dependencies]
image = "*"
imageproc = "*"
clap = { version = "*", features = ["derive"] }
csv = "*"
plotters = "*"
rayon = "*"
serde = { version = "*", features = ["derive"] }
toml = "*"
git-version = "*"
