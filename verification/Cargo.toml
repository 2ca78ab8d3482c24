[package]
name = "msom"
version = "0.1.0"
edition = "2021"
publish = false

[dependencies]
ndarray = { version = "=0.15.6", features = ["serde"] }
ndarray-ndimage = "=0.4.0"
ndarray-npy = { version = "=0.8.1", default-features = false, features = ["npz"] }
ndarray-stats = "=0.5.1"
meshgridrs = "=0.1.1"
finalfusion = "=0.18.0"
tqdm = "=0.7.0"
serde = { version = "=1.0.229", features = ["derive", "rc"] }
serde_json = "=1.0.154"
env_logger = "=0.11.11"
rfd = { version = "=0.14.1", default-features = false, features = ["xdg-portal", "async-std"] }
egui = "=0.27.2"
egui_extras = { version = "=0.27.2", features = ["svg", "file"] }
egui-modal = "=0.3.6"
egui_tiles = "=0.8.0"
