[package]
name = "lance_c"
version = "0.1.0"
edition = "2021"
publish = false

[dependencies]
bytes = "=1.12.1"
uuid = { version = "=1.29.0", features = ["v4"] }
chrono = { version = "=0.4.45", default-features = false, features = ["std", "clock"] }
object_store = { version = "=0.14.2", default-features = false }
lance-core = { version = "=14.0.2", default-features = false }
lance-io = { version = "=14.0.2", default-features = false }
arrow = { version = "=58.4.1", default-features = false, features = ["ffi"] }
arrow-array = "=58.4.1"
arrow-schema = "=58.4.1"
prost = "*"
half = "*"
libc = "0.2"
log = "0.4"
futures = "0.3"
async-trait = "0.1"
tokio = { version = "1", features = ["rt-multi-thread", "sync", "time", "macros"] }
foyer = "=0.22.6"
