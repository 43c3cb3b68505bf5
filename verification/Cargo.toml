[package]
name = "clanopedia_backend"
version = "0.1.0"
edition = "2021"
publish = false

[dependencies]
candid = "0.10"
chrono = { version = "0.4", default-features = false, features = ["std"] }
encoding_rs = "0.8"
getrandom = { version = "0.2", features = ["custom"] }
ic-cdk = "0.13"
ic-cdk-macros = "0.13"
ic-stable-structures = "0.6"
icrc-ledger-types = "0.1"
lopdf = { version = "0.32", default-features = false, features = ["nom_parser"] }
quick-xml = "0.31"
serde = { version = "1", features = ["derive"] }
serde_json = "1"
zip = { version = "0.6", default-features = false, features = ["deflate"] }
