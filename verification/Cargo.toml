[package]
name = "yaml-sigil-web"
version = "0.1.0"
edition = "2021"
publish = false

[dependencies]
anyhow = "1"
base64 = "0.22"
clap = { version = "4", features = ["derive"] }
console_error_panic_hook = "0.1"
ed25519-dalek = { version = "2", features = ["rand_core"] }
noyalib = "*"
p256 = { version = "0.13", features = ["ecdsa"] }
plot_icon = "*"
qrcode = "0.14"
rand = "0.8"
serde_json = "1"
wasm-bindgen = "0.2"
web-sys = { version = "0.3", features = ["Document", "Element", "HtmlElement", "HtmlButtonElement", "HtmlInputElement", "HtmlSelectElement", "HtmlTextAreaElement", "KeyboardEvent", "Window", "NodeList", "Node", "Event", "EventTarget", "DomTokenList", "Location", "CssStyleDeclaration", "DomRect", "HtmlOptionElement"] }
yaml-sigil-core = "0.6.0-rc.1"
yaml-sigil-signing = "0.6.0-rc.1"
yaml-sigil-transcription = "0.6.0-rc.1"
yaml-sigil-verification = "0.6.0-rc.1"
zeroize = "1"
