[package]
name = "alacritty_web"
version = "0.1.0"
edition = "2021"
publish = false

[dependencies]
subtle = "2"
log = "0.4"
clap = { version = "4", features = ["derive"] }
env_logger = "0.11"
tokio = { version = "1", features = ["full"] }
tokio-tungstenite = "0.26"
futures-util = { version = "0.3", features = ["sink"] }
portable-pty = "0.9"
parking_lot = "0.12"
wasm-bindgen = "0.2"
wasm-bindgen-futures = "0.4"
js-sys = "0.3"
web-sys = { version = "0.3", features = ["HtmlCanvasElement", "CanvasRenderingContext2d", "TextMetrics", "Window", "Document", "Element", "HtmlElement", "CssStyleDeclaration", "Node", "WebSocket", "BinaryType", "Navigator", "Clipboard", "Performance"] }
console_log = "1"
console_error_panic_hook = "0.1"
