[package]
name = "ascii"
version = "0.1.0"
edition = "2021"
publish = false

[dependencies]
ab_glyph = "*"
cpal = "*"
ffmpeg-next = "*"
imageproc = "*"
jpeg-decoder = "*"
minimp4 = "*"
openh264 = "*"
rand = "0.8"
term_size = "*"
