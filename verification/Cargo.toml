[package]
name = "saddle_camera_cinematic_camera"
version = "0.1.0"
edition = "2021"
publish = false

[dependencies]
bevy = { version = "=0.18.1", default-features = false, features = ["std", "bevy_camera", "bevy_color", "bevy_gizmos", "mesh_picking"] }
