[package]
name = "drawing_canvas"
version = "0.1.0"
edition = "2021"
publish = false

[dependencies]
wgpu = "27"
winit = "=0.31.0-beta.2"
bytemuck = { version = "1", features = ["derive"] }
half = "2"
log = "0.4"
env_logger = "0.11"
pollster = "0.4"
futures = "0.3"
anyhow = "1"
wasm-bindgen = "0.2"
wasm-bindgen-futures = "0.4"
js-sys = "0.3"
web-sys = { version = "0.3", features = ["Window", "Document", "Element", "HtmlElement", "HtmlCanvasElement", "NodeList", "Node", "ResizeObserver", "ResizeObserverEntry", "DomRectReadOnly", "CssStyleDeclaration", "console"] }
console_error_panic_hook = "0.1"
console_log = "1"
