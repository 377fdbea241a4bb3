[package]
name = "beamline"
version = "0.1.0"
edition = "2021"
publish = false

[dependencies]
indexmap = "=2.14.2"
itertools = "=0.13.0"
bitvec = "=1.1.1"
rust_decimal = "=1.43.0"
base64 = "=0.22.1"
time = { version = "=0.3.55", features = ["parsing", "formatting", "macros"] }
serde_json = "=1.0.154"
clap = { version = "=4.6.7", features = ["derive"] }
ion-rs = "=0.18.1"
partiql-value = "*"
partiql-ast = "*"
rand = "0.8"
rand_pcg = "0.3"
statrs = "0.16"
lipsum = "0.9"
