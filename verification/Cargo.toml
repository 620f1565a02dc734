[package]
name = "linear_motor"
version = "0.1.0"
edition = "2021"
publish = false

[dependencies]
bincode = { version = "=2.0.1", default-features = false, features = ["std"] }
framed = "=0.4.3"
heapless = "=0.7.17"
bitset-core = "=0.1.1"
libm = "=0.2.16"
biquad = "=0.4.2"
rusb = "=0.9.4"
bbqueue = "=0.5.1"
usb-device = "=0.2.9"
usbd-serial = "=0.1.1"

[dev-dependencies]
rand = "=0.8.8"
rand_distr = "=0.4.3"
nalgebra = { version = "*", default-features = false, features = ["std"] }
