[package]
name = "mmtk"
version = "0.1.0"
edition = "2021"
publish = false

[dependencies]
atomic = "0.5"
atomic_refcell = "0.1"
enum-map = "2"
lazy_static = "1"
libc = "0.2"
num-traits = "0.2"
pfm = "*"
proc-macro-error = "1"
proc-macro2 = "1"
quote = "1"
syn = { version = "1", features = ["full", "extra-traits"] }
