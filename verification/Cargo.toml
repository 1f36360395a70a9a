[package]
name = "salsa"
version = "0.1.0"
edition = "2021"
publish = false

[dependencies]
smallvec = "=1.16.4"
heck = "=0.3.3"
parking_lot = "=0.11.2"
lock_api = "=0.4.14"
futures = "=0.3.34"
log = "=0.4.34"
async-trait = "=0.1.92"
syn = { version = "1", features = ["full"] }
quote = "1"
proc-macro2 = "1"
