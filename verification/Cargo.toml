[package]
name = "diagnostic_updater_rs"
version = "0.1.0"
edition = "2021"
publish = false

[dependencies]
rclrs = "0.7"
rosidl_runtime_rs = "0.5"
