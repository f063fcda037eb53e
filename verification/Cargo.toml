[package]
name = "webworker"
version = "0.1.0"
edition = "2021"
publish = false

[dependencies]
tokio = { version = "1", features = ["sync"] }
serde = { version = "1", features = ["derive"] }
serde_bytes = "0.11"
postcard = { version = "1", features = ["alloc"] }
serde-wasm-bindgen = "*"
wasm-bindgen = "0.2"
wasm-bindgen-futures = "0.4"
js-sys = "0.3"
web-sys = { version = "0.3", features = ["Worker", "WorkerOptions", "WorkerType", "MessageEvent", "Blob", "BlobPropertyBag", "Url", "console", "HtmlElement", "HtmlInputElement", "Window", "Document", "Element", "Navigator"] }
futures = "0.3"
thiserror = "*"
send_wrapper = "*"
rand = "*"
rayon = "*"
wasm-bindgen-rayon = "*"
nimiq-bls = "*"
nimiq-utils = "*"
ark-serialize = "*"
