[package]
name = "steelmind_kernel"
version = "0.1.0"
edition = "2021"
publish = false

[dependencies]
pruefung = "=0.2.1"
elf = "=0.8.0"
noto-sans-mono-bitmap = { version = "=0.3.2", features = ["font_weights_all", "raster_heights_all"] }
clap = { version = "=4.6.7", features = ["derive"] }
buddy_system_allocator = "=0.13.0"
