[package]
name = "todo_cli"
version = "0.1.0"
edition = "2021"
publish = false

[dependencies]
chrono = "0.4"
clap = { version = "4", features = ["derive"] }
colored = "*"
figlet-rs = "0.1"
prettytable-rs = "0.10"
rusqlite = "*"
serde = { version = "1", features = ["derive"] }
termion = "*"
