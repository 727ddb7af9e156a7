[package]
name = "shape_pipeline"
version = "0.1.0"
edition = "2021"
publish = false

[dependencies]
crossbeam-channel = "=0.5.17"
bevy = { version = "=0.18.1", default-features = false, features = ["std", "bevy_gizmos", "bevy_color", "bevy_log", "bevy_camera", "bevy_window", "bevy_camera_controller", "free_camera"] }
mlua = { version = "=0.12.2", features = ["lua54", "vendored", "send"] }
notify = { version = "=8.2.0", features = ["crossbeam-channel"] }
