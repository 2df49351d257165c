[package]
name = "vcf_mcp_server"
version = "0.1.0"
edition = "2021"
publish = false

[dependencies]
noodles = { version = "*", features = ["bgzf", "core", "csi", "tabix", "vcf"] }
bincode = "1"
serde = { version = "1", features = ["derive"] }
serde_json = "1"
clap = { version = "4", features = ["derive"] }
tokio = { version = "1", features = ["full"] }
rmcp = { version = "*", features = ["server", "macros", "transport-io", "transport-streamable-http-server"] }
axum = "*"
