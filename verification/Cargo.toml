[package]
name = "stock_management"
version = "0.1.0"
edition = "2021"
publish = false

[dependencies]
calamine = "=0.30.1"
chrono = "=0.4.45"
diesel = { version = "=2.3.14", features = ["sqlite"] }
dotenvy = "=0.15.7"
eframe = { version = "=0.31.1", default-features = false, features = ["glow", "default_fonts", "x11"] }
egui = "=0.31.1"
egui_extras = "=0.31.1"
# diesel reaches SQLite through this crate; "bundled" compiles SQLite with it,
# so that the program builds where no system library is installed.
libsqlite3-sys = { version = "=0.38.2", features = ["bundled"] }
rust_xlsxwriter = "=0.87.0"
serde = { version = "=1.0.229", features = ["derive"] }
