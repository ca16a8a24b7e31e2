[package]
name = "acsync"
version = "0.1.0"
edition = "2021"
publish = false

[dependencies]
wildmatch = "*"
sha2 = "0.10"
md-5 = "0.10"
serde = { version = "1", features = ["derive"] }
serde_json = "1"
walkdir = "2"
fs_extra = "1"
tempdir = "0.3"
compress-tools = "*"
unrar = "0.4"
rocket = "0.4"
rocket_contrib = { version = "0.4", default-features = false, features = ["json", "tera_templates"] }
rocket-multipart-form-data = "0.9"
clap = { version = "2", features = ["yaml"] }
