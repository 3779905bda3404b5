[package]
name = "android_keyring"
version = "0.1.0"
edition = "2021"
publish = false

[dependencies]
base64 = "0.22"
jni = "0.21"
keyring-core = "*"
ndk-context = "0.1"
thiserror = "2"
tracing = "0.1"
tracing-subscriber = { version = "0.3", default-features = false, features = ["env-filter", "registry", "std"] }
android_log-sys = "*"
