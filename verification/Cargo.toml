[package]
name = "dcmv"
version = "0.1.0"
edition = "2021"
publish = false

[dependencies]
anyhow = "=1.0.104"
clap = { version = "=4.6.7", features = ["derive"] }
crossterm = "=0.29.0"
dicom = "=0.10.0"
dicom-pixeldata = { version = "=0.10.0", features = ["image"] }
image = "=0.25.10"
tempfile = "=3.27.0"
viuer = "=0.11.0"
