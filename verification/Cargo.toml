[package]
name = "viz_graphql"
version = "0.1.0"
edition = "2021"
publish = false

[dependencies]
serde_json = "*"
serde_cbor = "*"
serde_urlencoded = "*"
mime = "*"
http = "*"
async-graphql = "*"
viz-core = "*"
viz-utils = "*"
tempfile = "*"
