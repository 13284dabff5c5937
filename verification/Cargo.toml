[package]
name = "invoice_report"
version = "0.1.0"
edition = "2021"
publish = false

[dependencies]
quick-xml = "0.22"
actix-web = { version = "4", default-features = false, features = ["macros"] }
actix-multipart = "0.6"
futures-util = "0.3"
headless_chrome = "1"
anyhow = "1"
