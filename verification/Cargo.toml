[package]
name = "lewrep"
version = "0.1.0"
edition = "2021"
publish = false

[dependencies]
chrono = "0.4"
chrono-tz = "0.9"
regex = "1"
fsize-core = "*"
grep-regex = "0.1"
grep-searcher = "0.1"
ignore = "0.4"
rayon = "1"
