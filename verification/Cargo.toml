[package]
name = "kaleidoscope"
version = "0.1.0"
edition = "2021"
publish = false

[dependencies]
chrono = "0.4"
uuid = { version = "1", features = ["v4"] }
serde = { version = "1", features = ["derive"] }
serde_json = "1"
sqlx = { version = "0.8", default-features = false, features = ["sqlite", "chrono", "uuid", "runtime-tokio", "macros", "migrate"] }
tokio = { version = "1", features = ["full"] }
tokio-util = { version = "0.7", features = ["io"] }
axum = "0.7"
tower-http = { version = "0.6", features = ["cors"] }
toml = "0.8"
thiserror = "1"
anyhow = "1"
clap = { version = "4", features = ["derive"] }
csv = "1"
blake3 = "1"
sha1 = "0.10"
subtle = "2"
once_cell = "1"
log = "0.4"
env_logger = "0.11"
nix = { version = "0.29", features = ["user", "fs"] }
walkdir = "2"
image = { version = "0.25", default-features = false, features = ["jpeg", "png"] }
nom-exif = "*"
iso6709parse = "*"
rawloader = "*"
imagepipe = "*"
ffmpeg-next = "*"
libheif-rs = "*"
pdfium-render = "*"
