[package]
name = "compose_controller"
version = "0.1.0"
edition = "2021"
publish = false

[dependencies]
# Not called from this crate: kube 0.16 adds a `time::Duration` to a chrono
# `DateTime`, which later releases of chrono 0.4 no longer accept, so the
# release that kube was written against is held here.
chrono = "=0.4.19"
compose_yml = "=0.0.59"
k8s-openapi = { version = "=0.5.1", default-features = false, features = ["v1_15"] }
kube = { version = "=0.16.1", features = ["openapi"] }
serde_json = "=1.0.154"
