[package]
name = "fs_librarian"
version = "0.1.0"
edition = "2021"
publish = false

[dependencies]
regex = "1"
tree_magic = "*"
clap = { version = "4", features = ["derive"] }
exitcode = "*"
toml = "*"
serde = { version = "1", features = ["derive"] }
notify = "*"
fanotify-rs = "*"
nix = { version = "*", features = ["poll"] }
tokio-util = { version = "*", features = ["rt"] }
