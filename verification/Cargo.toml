[package]
name = "layer8_interceptor"
version = "0.1.0"
edition = "2021"
publish = false

[dependencies]
bytes = "*"
flate2 = "*"
js-sys = "*"
reqwest = { version = "*", default-features = false }
serde = { version = "*", features = ["derive"] }
serde-wasm-bindgen = "*"
serde_json = "*"
url = "*"
uuid = { version = "*", features = ["v4"] }
wasm-bindgen = "*"
wasm-bindgen-futures = "*"
wasm-streams = "*"
web-sys = { version = "*", features = ["AbortSignal", "Blob", "File", "FormData", "Headers", "ReadableStream", "ReadableStreamDefaultReader", "ReferrerPolicy", "Request", "RequestInit", "RequestMode", "Response", "ResponseInit", "Url", "UrlSearchParams", "Window", "console"] }
