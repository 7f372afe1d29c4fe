[package]
name = "engraver"
version = "0.1.0"
edition = "2021"
publish = false

[dependencies]
shabal = "*"
humanize-rs = "*"
raw-cpuid = "*"
num_cpus = "*"
systemstat = "*"
rayon = "*"
chan = "*"
core_affinity = "*"
stopwatch = "*"
pbr = "*"
