[package]
name = "pallet_dex"
version = "0.1.0"
edition = "2021"
publish = false

[dependencies]
sp-runtime = "=4.0.0"
sp-std = "=4.0.0"
parity-scale-codec = "=2.3.1"
scale-info = "=1.0.0"
frame-support = "=4.0.0"
frame-system = "=4.0.0"
# Nothing here names this crate. sp-runtime needs it through sp-core, which
# builds against this patch of it only.
substrate-bip39 = "=0.4.4"
