[package]
name = "embedded_workshop"
version = "0.1.0"
edition = "2021"
publish = false

[dependencies]
rand = "0.8"
tokio = { version = "1", features = ["rt-multi-thread", "macros", "net", "io-util", "sync", "time"] }
winit = "0.30"
wgpu = "0.20"
cgmath = "0.18"
bytemuck = { version = "1", features = ["derive"] }
env_logger = "0.11"
log = "0.4"
pollster = "0.3"
embedded-hal = "1"
embedded-hal-async = "1"
embedded-io-async = "0.6"
embedded-nal-async = "*"
heapless = "*"
static_cell = "*"
critical-section = { version = "1", features = ["std"] }
lis3dh-async = "*"
embassy-sync = "*"
embassy-time = { version = "*", features = ["std"] }
embassy-executor = { version = "*", features = ["arch-std", "executor-thread"] }
embassy-net = { version = "*", features = ["tcp", "proto-ipv4", "medium-ethernet", "dhcpv4"] }
cortex-m = "0.7"
cortex-m-rt = "0.7"
defmt = "*"
defmt-rtt = "*"
panic-probe = "*"
device-driver = "*"
assign-resources = "*"
