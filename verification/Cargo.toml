[package]
name = "ssh_session"
version = "0.1.0"
edition = "2021"
publish = false

[dependencies]
anyhow = "1.0"
camino = "1.0"
filedescriptor = "0.8"
libssh-rs = { version = "0.3", features = ["vendored"] }
log = "0.4"
passfd = "0.1"
portable-pty = "0.9"
smol = "2.0"
socket2 = { version = "0.5", features = ["all"] }
ssh2 = "0.9"
