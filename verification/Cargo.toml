[package]
name = "ping_buddy_lib"
version = "0.1.0"
edition = "2021"
publish = false

[dependencies]
hashbrown = "=0.15.5"
url = "=2.5.8"
teloxide = { version = "=0.13.0", default-features = false, features = ["macros", "webhooks-axum", "ctrlc_handler", "rustls"] }
tokio = { version = "=1.54.1", features = ["macros", "rt-multi-thread", "time", "sync"] }
sqlx = { version = "=0.8.6", default-features = false, features = ["runtime-tokio", "sqlite"] }
async-trait = "=0.1.92"
thiserror = "=1.0.69"
log = "=0.4.35"
pretty_env_logger = "=0.5.0"
takecell = "=0.1.1"
