[package]
name = "rustjblas"
version = "0.1.0"
edition = "2021"
publish = false

[dependencies]
blas = "*"
lapack = "*"
libc = "0.2"
rand = "0.4"
