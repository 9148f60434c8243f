[package]
name = "shadowproxy"
version = "0.1.0"
edition = "2021"
publish = false

[dependencies]
base64 = "0.21"
brotli = "*"
eframe = { version = "0.23", default-features = false, features = ["default_fonts", "glow"] }
flate2 = "1"
genpdf = "0.2"
html-escape = "0.2"
log = "0.4"
log4rs = { version = "1", default-features = false, features = ["config_parsing", "console_appender", "file_appender", "yaml_format"] }
percent-encoding = "2"
reqwest = "0.11"
serde_json = "1"
tokio = { version = "1", features = ["rt-multi-thread"] }
url = "2"
urlencoding = "2"
warp = { version = "0.3", default-features = false }
