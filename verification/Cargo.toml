[package]
name = "game_client"
version = "0.1.0"
edition = "2021"
publish = false

[dependencies]
sha2 = "0.10"
png = "0.17"
serde = { version = "1", features = ["derive"] }
serde_json = "1"
glam = "0.29"
egui = "0.31"
wasm-bindgen = "0.2"
wasm-bindgen-futures = "0.4"
js-sys = "0.3"
web-sys = { version = "0.3", features = ["Window", "Document", "HtmlDocument", "Response", "Performance"] }
