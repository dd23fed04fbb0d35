[package]
name = "rye"
version = "0.1.0"
edition = "2021"
publish = false

[dependencies]
anyhow = "=1.0.104"
color_quant = "=1.1.0"
console_error_panic_hook = "0.1"
egui = "=0.33.3"
egui-wgpu = "=0.33.3"
gif = "=0.14.2"
glam = "=0.34.2"
image = { version = "=0.25.10", default-features = false, features = ["png"] }
js-sys = "=0.3.107"
notify = "=8.2.1"
png = "=0.18.1"
pollster = "=1.0.1"
tracing = "=0.1.44"
tracing-subscriber = { version = "=0.3.23", features = ["env-filter"] }
tracing-wasm = "0.2"
wasm-bindgen = "=0.2.130"
wasm-bindgen-futures = "=0.4.80"
web-sys = { version = "=0.3.107", features = ["Blob", "BlobPropertyBag", "console", "CssStyleDeclaration", "DedicatedWorkerGlobalScope", "Document", "Element", "Event", "EventTarget", "HtmlButtonElement", "HtmlCanvasElement", "HtmlElement", "HtmlHeadElement", "HtmlStyleElement", "KeyboardEvent", "Location", "MessageEvent", "MouseEvent", "Node", "OffscreenCanvas", "Performance", "Url", "VisibilityState", "WheelEvent", "Window", "Worker", "WorkerGlobalScope", "WorkerOptions", "WorkerType"] }
web-time = "=1.1.0"
wgpu = "=27.0.1"
winit = "=0.30.13"
