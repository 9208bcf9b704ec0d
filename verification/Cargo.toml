[package]
name = "tfgrid_graphql"
version = "0.1.0"
edition = "2021"
publish = false

[dependencies]
chrono = "0.4"
clap = { version = "4", features = ["derive"] }
eframe = { version = "0.22", default-features = false, features = ["default_fonts", "glow"] }
egui_extras = { version = "0.22", features = ["datepicker"] }
log = "0.4"
plotters = { version = "0.3", default-features = false, features = ["svg_backend", "histogram", "line_series"] }
poll-promise = { version = "0.3", features = ["tokio"] }
pretty_env_logger = "0.5"
reqwest = { version = "0.11", features = ["gzip", "json"] }
serde = { version = "1", features = ["derive"] }
serde_json = "1"
wasm-bindgen-futures = "0.4"
