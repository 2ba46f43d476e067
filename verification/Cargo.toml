[package]
name = "plate_tool"
version = "0.1.0"
edition = "2021"
publish = false

[dependencies]
regex = "=1.13.1"
uuid = { version = "=1.29.0", features = ["v7", "serde"] }
serde = { version = "=1.0.229", features = ["derive"] }
serde_json = "=1.0.154"
csv = "=1.4.0"
lazy_static = "=1.5.1"
log = "=0.4.34"
rand = { version = "=0.8.8", features = ["small_rng"] }
yew = { version = "*", features = ["csr"] }
yewdux = "0.13"
wasm-bindgen = "=0.2.129"
wasm-logger = "=0.2.0"
js-sys = "=0.3.106"
web-sys = { version = "=0.3.106", features = ["Blob", "Document", "Element", "Event", "EventTarget", "File", "FileList", "FileReader", "FormData", "HtmlAnchorElement", "HtmlButtonElement", "HtmlDialogElement", "HtmlElement", "HtmlFormElement", "HtmlInputElement", "HtmlOptionElement", "HtmlSelectElement", "MouseEvent", "Node", "SubmitEvent", "Url", "Window"] }
