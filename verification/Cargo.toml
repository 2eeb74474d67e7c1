[package]
name = "silkroad_core"
version = "0.1.0"
edition = "2021"
publish = false

[dependencies]
bevy_ecs = "=0.10.1"
bevy_time = "=0.10.1"
codegen = "=0.2.0"
crossbeam-channel = "=0.5.17"
pk2 = "=0.1.0"
tokio = { version = "=1.54.1", features = ["macros", "net", "rt", "rt-multi-thread", "sync"] }
tokio-util = "=0.7.20"
tracing = "=0.1.44"
