[package]
name = "moon"
version = "0.1.0"
edition = "2021"
publish = false

[dependencies]
diff = "=0.1.13"
shell-words = "=1.1.1"
lenient_semver = "=0.4.2"
serde = { version = "=1.0.229", features = ["derive"] }
serde_json = "=1.0.154"
serde_yaml = "=0.9.34"
globwalk = "=0.9.1"
regex-syntax = { version = "=0.8.11", features = ["unicode-perl"] }
starbase_styles = "*"
