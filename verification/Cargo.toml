[package]
name = "starry"
version = "0.1.0"
edition = "2021"
publish = false

[dependencies]
axerrno = "*"
axio = "*"
bitflags = "*"
flatten_objects = "*"
linux-raw-sys = { version = "*", features = ["general", "net"] }
memory_addr = "*"
num_enum = "*"
spin = "*"
