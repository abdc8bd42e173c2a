[package]
name = "fltkrs-richdisplay"
version = "1.0.2"
edition = "2021"
publish = false

[dependencies]
fltk = "1"
idgenerator-thin = "*"
log = "0.4"
parking_lot = "0.12"
serde = { version = "1", features = ["derive"] }
tokio = { version = "1", features = ["rt-multi-thread", "macros", "time", "sync"] }
debounce_fltk = "*"
throttle_my_fn = "*"
