[package]
name = "radial_visualizer"
version = "0.1.0"
edition = "2021"
publish = false

[dependencies]
ringbuffer = "=0.15.0"
spectrum-analyzer = "=1.5.0"
