[package]
name = "markplus_render"
version = "0.1.0"
edition = "2021"
publish = false

[dependencies]
html-escape = "=0.2.15"
minijinja = "=2.24.0"
serde = "=1.0.229"
serde_json = { version = "=1.0.154", features = ["unbounded_depth"] }
glob = "=0.3.4"
wasm-bindgen = "=0.2.130"
serde-wasm-bindgen = "=0.6.5"
console_error_panic_hook = "=0.1.7"
typst = "=0.15.1"
typst-as-lib = { version = "=0.17.0", features = ["packages", "typst-kit-fonts", "ureq"] }
typst-layout = "=0.15.1"
typst-pdf = "=0.15.1"
