[package]
name = "signd"
version = "0.1.0"
edition = "2021"
publish = false

[dependencies]
amplify = "=3.14.2"
bitcoin = "=0.29.2"
lnp-core = "=0.9.2"
lnpbp = "=0.9.0"
microservices = { version = "=0.9.0", default-features = false }
strict_encoding = "=0.9.0"
descriptor-wallet = { version = "=0.9.2", features = ["keygen", "miniscript", "sign"] }
