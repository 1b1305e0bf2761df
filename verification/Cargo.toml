[package]
name = "sql_console"
version = "0.1.0"
edition = "2021"
publish = false

[dependencies]
crossterm = "=0.25.0"
tui = "=0.19.0"
tui-logger = "=0.8.3"
