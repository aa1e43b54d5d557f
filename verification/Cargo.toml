[package]
name = "renovate_manager"
version = "0.1.0"
edition = "2021"
publish = false

[dependencies]
anyhow = "=1.0.104"
async-trait = "=0.1.92"
crossterm = "=0.28.1"
octocrab = "=0.47.1"
ratatui = "=0.29.0"
tokio = { version = "=1.54.1", features = ["macros", "rt-multi-thread"] }

[dev-dependencies]
regex = "=1.13.1"
