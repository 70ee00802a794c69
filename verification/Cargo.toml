[package]
name = "canvas_harness"
version = "0.1.0"
edition = "2021"
publish = false

[dependencies]
wasm-bindgen = "0.2"
web-sys = { version = "0.3", features = ["console", "Window", "Document", "Element", "Node", "EventTarget", "HtmlCanvasElement", "CanvasRenderingContext2d", "ImageData", "KeyboardEvent"] }
