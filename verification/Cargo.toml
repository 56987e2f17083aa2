[package]
name = "gql_codegen_transform"
version = "0.1.0"
edition = "2021"
publish = false

[dependencies]
graphql-parser = "*"
serde = { version = "*", features = ["derive"] }
serde_json = "*"
swc_core = { version = "*", features = ["common", "ecma_ast", "ecma_visit", "ecma_utils", "ecma_plugin_transform"] }
