[package]
name = "marketplace_ui"
version = "0.1.0"
edition = "2021"
publish = false

[dependencies]
chrono = "0.4"
urlencoding = "2"
uuid = { version = "1", features = ["v4"] }
serde = { version = "1", features = ["derive"] }
serde_json = "1"
wasm-bindgen = "0.2"
wasm-bindgen-futures = "0.4"
js-sys = "0.3"
web-sys = { version = "0.3", features = ["Window", "Request", "RequestInit", "RequestMode", "Response", "Headers", "Storage", "Blob", "BlobPropertyBag", "Url", "Document", "Element", "HtmlAnchorElement", "HtmlElement"] }
gloo-net = "0.6"
gloo-timers = { version = "0.3", features = ["futures"] }
