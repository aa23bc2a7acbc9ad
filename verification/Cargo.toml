[package]
name = "sftp_tube"
version = "0.1.0"
edition = "2021"
publish = false

[dependencies]
ssh2 = "0.9"
rpassword = "7"
clipboard-win = "5"
