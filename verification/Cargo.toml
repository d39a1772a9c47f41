[package]
name = "game_of_life"
version = "0.1.0"
edition = "2021"
publish = false

[dependencies]
fixedbitset = "*"
js-sys = "*"
wasm-bindgen = "*"
web-sys = { version = "*", features = [
    "CanvasRenderingContext2d",
    "Document",
    "DomRect",
    "Element",
    "Event",
    "EventTarget",
    "HtmlCanvasElement",
    "HtmlElement",
    "HtmlInputElement",
    "MouseEvent",
    "Window",
] }
