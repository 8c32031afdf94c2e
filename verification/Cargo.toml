[package]
name = "kathrikaish"
version = "0.1.0"
edition = "2021"
publish = false

[dependencies]
chrono = "=0.4.45"
clap = { version = "=4.6.7", features = ["derive"] }
crossterm = "=0.26.1"
dirs = "=7.0.0"
rodio = { version = "=0.21.1", default-features = false, features = ["flac", "mp3", "vorbis", "wav"] }
serde_json = "=1.0.154"
shrs = "=0.0.6"
shrs_cd_stack = "=0.0.6"
shrs_cd_tools = "=0.0.6"
shrs_command_timer = "=0.0.6"
shrs_insulter = "=0.0.1"
shrs_mux = "=0.0.6"
shrs_output_capture = "=0.0.6"
shrs_rhai_completion = "=0.0.6"
shrs_run_context = "=0.0.6"
