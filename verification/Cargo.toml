[package]
name = "mcp_manager"
version = "0.1.0"
edition = "2021"
publish = false

[dependencies]
ansi_term = "*"
directories = "*"
unicode-width = "*"
