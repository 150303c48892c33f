[package]
name = "rusqlite_facet"
version = "0.1.0"
edition = "2021"
publish = false

[dependencies]
facet = "*"
facet-core = "*"
facet-reflect = "*"
rusqlite = { version = "*", features = ["bundled"] }
