[package]
name = "doc_manager"
version = "0.1.0"
edition = "2021"
publish = false

[dependencies]
uuid = { version = "1", features = ["v4"] }
azure_storage = "*"
azure_storage_blobs = "*"
futures = "0.3"
rocket = { version = "0.5", features = ["json"] }
rocket_cors = "*"
