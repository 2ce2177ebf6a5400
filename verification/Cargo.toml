[package]
name = "raingame"
version = "0.1.0"
edition = "2021"
publish = false

[dependencies]
rand = "0.7"
tokio = { version = "1", features = ["rt-multi-thread", "macros", "net", "io-util", "sync", "time"] }
clap = { version = "4", features = ["derive"] }
chrono = "0.4"
ncurses = "5"
