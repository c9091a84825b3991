[package]
name = "bevy_hanabi"
version = "0.1.0"
edition = "2021"
publish = false

[dependencies]
bevy = { version = "=0.6.1", default-features = false }
# The derive crates of bevy 0.6 use items of syn that stand behind its `full`
# feature, and do not name the feature. This crate of procedural macros names
# it, and that is all it is here for: nothing calls it.
ndk-macro = "=0.3.0"
