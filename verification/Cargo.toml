[package]
name = "ghloc"
version = "0.1.0"
edition = "2021"
publish = false

[dependencies]
clap = "2"
confy = "*"
futures = "*"
reqwest = { version = "*", default-features = false, features = ["json", "rustls-tls"] }
serde = { version = "*", features = ["derive"] }
tokio = { version = "*", features = ["macros", "rt-multi-thread", "time"] }
