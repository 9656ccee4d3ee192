[package]
name = "pixi_script"
version = "0.1.0"
edition = "2021"
publish = false

[dependencies]
async-fd-lock = "=0.2.0"
clap = { version = "=4.6.7", features = ["derive", "env"] }
console = "=0.16.6"
deno_task_shell = "=0.33.3"
dialoguer = "=0.12.0"
dirs = "=7.0.0"
dunce = "=1.0.5"
fs-err = { version = "=3.3.2", features = ["tokio"] }
hex = "=0.4.3"
indexmap = "=2.14.2"
libc = "=0.2.191"
miette = "=7.6.0"
pep508_rs = "=0.9.2"
rattler_conda_types = "=0.58.1"
rattler_digest = "=2.1.0"
rattler_lock = "=0.34.12"
serde = { version = "=1.0.229", features = ["derive"] }
serde_json = "=1.0.154"
serde_yaml = "=0.9.34"
strsim = "=0.11.1"
tempfile = "=3.27.0"
thiserror = "=2.0.21"
tokio = { version = "=1.54.1", features = ["fs", "macros", "rt", "signal", "sync", "time"] }
tokio-util = "=0.7.20"
toml_edit = "=0.25.17"
tracing = "=0.1.44"
url = "=2.5.8"
uv-distribution-filename = "=0.0.29"
uv-platform-tags = "=0.0.29"
windows-sys = { version = "0.61", features = ["Win32_Globalization"] }
