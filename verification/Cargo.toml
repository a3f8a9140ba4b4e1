[package]
name = "glv"
version = "0.1.0"
edition = "2021"
publish = false

[dependencies]
regex = "*"
unicode-segmentation = "*"
unicode-width = "0.1"
git-wrapper = "*"
posix-errors = "*"
configparser = "*"
xdg = "*"
url = "*"
