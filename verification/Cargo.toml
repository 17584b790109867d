[package]
name = "ggcode"
version = "0.1.0"
edition = "2021"
publish = false

[dependencies]
run_script = "0.10"
serde = { version = "1", features = ["derive"] }
serde_yaml = "0.9"
serde_json = "1"
mlua = { version = "0.9", features = ["luau", "serialize"] }
tera = "1"
glob = "0.3"
relative-path = "1"
uuid = { version = "1", features = ["v4"] }
