[package]
name = "slide_nav"
version = "0.1.0"
edition = "2021"
publish = false

[dependencies]
sycamore = { version = "=0.9.4", features = ["suspense"] }
sycamore-router = "=0.9.4"
mdsycx = "=0.2.0"
serde = { version = "=1.0.229", features = ["derive"] }
gloo-net = "=0.7.0"
wasm-bindgen = "=0.2.129"
js-sys = "=0.3.106"
web-sys = { version = "=0.3.106", features = ["Window", "Document", "Element", "HtmlElement", "DomTokenList", "History", "Location", "HtmlVideoElement", "HtmlMediaElement"] }
console_error_panic_hook = "=0.1.7"
