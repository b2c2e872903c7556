[package]
name = "sudoku_game"
version = "0.1.0"
edition = "2021"
publish = false

[dependencies]
rand = "0.8"
web-time = "1"
serde = { version = "1", features = ["derive"] }
serde_json = "1"
serde_compact = "=1.0.0-rc.3"
derive_more = { version = "*", features = ["from"] }
leptos = { version = "0.6", features = ["csr"] }
leptos_router = { version = "0.6", features = ["csr"] }
leptos_meta = { version = "0.6", features = ["csr"] }
leptos_hotkeys = "0.2"
leptos-use = "0.13"
codee = { version = "0.2", features = ["json_serde"] }
console_error_panic_hook = "0.1"
