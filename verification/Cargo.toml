[package]
name = "mania_rating"
version = "0.1.0"
edition = "2021"
publish = false

[dependencies]
anyhow = "=1.0.104"
chrono = "=0.4.45"
osu-db = "=0.3.0"
rayon = "=1.12.0"
rosu-mem = "=2.0.0"
rosu-memory-lib = "=1.3.1"
walkdir = "=2.5.0"
