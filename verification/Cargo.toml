[package]
name = "solana_lottery_program"
version = "0.1.0"
edition = "2021"
publish = false

[dependencies]
solana-program = "*"
rs_merkle = "*"
axum = "*"
tokio = { version = "*", features = ["full"] }
dotenv = "*"
sqlx = { version = "*", default-features = false, features = ["mysql", "runtime-tokio"] }
uuid = { version = "*", features = ["v4"] }
serde = { version = "*", features = ["derive"] }
serde_json = "*"
thiserror = "*"
