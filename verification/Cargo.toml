[package]
name = "bitsave"
version = "0.1.0"
edition = "2021"
publish = false

[dependencies]
alloy-primitives = "=0.3.3"
alloy-sol-types = "=0.3.1"
mini-alloc = "=0.4.2"
# alloy-primitives takes its integers from ruint. The library's trusted
# contracts were read against this release of it, and stylus-sdk 0.4.3 builds
# with it, not with the latest.
ruint = "=1.12.1"
stylus-sdk = "=0.4.3"
