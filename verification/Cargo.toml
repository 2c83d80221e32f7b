[package]
name = "helloasso_calendar"
version = "0.1.0"
edition = "2021"
publish = false

[dependencies]
scraper = "*"
icalendar = "*"
chrono = "*"
actix-web = { version = "*", default-features = false, features = ["macros"] }
reqwest = { version = "*", default-features = false }
