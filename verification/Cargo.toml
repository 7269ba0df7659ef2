[package]
name = "lobby_games"
version = "0.1.0"
edition = "2021"
publish = false

[dependencies]
async-std = { version = "1", features = ["attributes"] }
async-trait = "0.1"
bimap = "=0.6.3"
parking_lot = "=0.13.0"
rand = "=0.10.3"
rocket = { version = "0.5", features = ["json"] }
serde = { version = "=1.0.229", features = ["derive"] }
serde_json = "=1.0.154"
surf = { version = "2", default-features = false, features = ["h1-client-no-tls"] }
termion = "1.5"
tui = { version = "0.19", default-features = false, features = ["termion"] }
unicode-width = "0.1"
uuid = { version = "=1.29.0", features = ["v4", "serde"] }
