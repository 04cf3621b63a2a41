[package]
name = "ckb_fuzz_harness"
version = "0.1.0"
edition = "2021"
publish = false

[dependencies]
tentacle-secio = "=0.6.9"
tentacle-multiaddr = "=0.3.8"
# tentacle-secio 0.6.9 does not compile against tokio-util 0.7.20 (a second
# `Encoder` impl makes its sink calls ambiguous); this holds it to 0.7.19.
tokio-util = { version = "=0.7.19", features = ["codec"] }
rand = "=0.8.8"
tokio = { version = "=1.54.1", features = ["rt"] }
futures = "=0.3.34"
