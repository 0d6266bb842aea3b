[package]
name = "novafc"
version = "0.1.0"
edition = "2021"
publish = false

[dependencies]
heapless = "=0.8.0"
ordered-float = { version = "=4.6.0", features = ["serde"] }
serde = { version = "=1.0.229", features = ["derive"] }
postcard = { version = "=1.1.3", default-features = false }
alloc-traits = "=0.1.1"
base64 = "=0.13.1"
embedded-hal = "=0.2.7"
shared-bus = "0.2"
ms5611-spi = "*"
bmi088 = "*"

[dev-dependencies]
static-alloc = "=0.2.6"
