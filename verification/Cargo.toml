[package]
name = "javelin"
version = "0.1.0"
edition = "2021"
publish = false

[dependencies]
clap = { version = "=4.6.7", features = ["derive"] }
clap_complete = "=4.6.11"
input = { version = "=0.10.0", default-features = false, features = ["libinput_1_21"] }
libc = "=0.2.191"
signal-hook = "=0.4.5"
spin_sleep = "=1.3.3"
swayipc = "=4.0.0"

[dev-dependencies]
serde_json = "=1.0.154"
