[package]
name = "pro_audio_config"
version = "2.0.0"
edition = "2021"
publish = false

[dependencies]
whoami = "1"
chrono = "0.4"
gtk = "0.18"
glib = "0.18"
serde = { version = "1", features = ["derive"] }
serde_json = "1"
toml = "0.8"
directories = "5"
shellexpand = "3"
pipewire = "0.9"
libspa = "0.9"
bytemuck = "1"
