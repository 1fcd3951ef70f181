[package]
name = "fhist"
version = "0.1.0"
edition = "2021"
publish = false

[dependencies]
chrono = "=0.4.45"
clap = { version = "=4.6.7", features = ["derive"] }
directories = "=6.0.0"
getrandom = "=0.4.3"
libc = "=0.2.191"
notify = "=8.2.1"
rusqlite = { version = "=0.41.1", features = ["bundled"] }
uuid = { version = "=1.29.1", features = ["v4"] }
