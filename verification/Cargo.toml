[package]
name = "u8gg"
version = "0.1.0"
edition = "2021"
publish = false

[dependencies]
embedded-graphics = "*"
embedded-qr = "*"
u8g2-fonts = "0.8.0"
heapless = "*"
smoltcp = "*"
log = "*"
anyhow = "*"
critical-section = { version = "*", features = ["std"] }
ssd1306 = "*"
esp-idf-svc = "*"
esp-hal = { version = "*", features = ["esp32c3", "unstable"] }
esp-println = { version = "*", features = ["esp32c3"] }
esp-radio = { version = "*", features = ["esp32c3", "wifi"] }
