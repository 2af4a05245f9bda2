[package]
name = "bevy_box3d"
version = "0.1.0"
edition = "2021"
publish = false

[dependencies]
bevy_ecs = "=0.19.1"
bevy_app = "=0.19.1"
bevy_color = "=0.19.1"
bevy_math = "=0.19.1"
bevy_tasks = "=0.19.1"
bevy_time = "=0.19.1"
bevy_transform = "=0.19.1"
bevy_gizmos = { version = "=0.19.1", default-features = false }
