[package]
name = "maplibre"
version = "0.1.0"
edition = "2021"
publish = false

[dependencies]
log = "0.4"
winit = "0.27"
wgpu = "0.13"
wasm-bindgen = "0.2"
web-sys = { version = "0.3", features = ["Window", "Document", "HtmlElement", "HtmlCanvasElement", "Element"] }
