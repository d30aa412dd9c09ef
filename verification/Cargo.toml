[package]
name = "iconv_native"
version = "0.1.0"
edition = "2021"
publish = false

[dependencies]
widestring = "1"
windows-sys = { version = "*", features = ["Win32_Foundation", "Win32_Globalization"] }
web-sys = { version = "0.3", features = ["TextDecoder", "TextDecoderOptions", "TextEncoder"] }
