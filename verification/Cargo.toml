[package]
name = "coppercrab"
version = "0.1.0"
edition = "2021"
publish = false

[dependencies]
log = "0.4"
gerber_parser = "*"
env_logger = { version = "*", default-features = false }
directories = "*"
serde = { version = "1", features = ["derive"] }
toml = "*"
clipper2 = "*"
