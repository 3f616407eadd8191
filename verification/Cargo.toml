[package]
name = "openssl_async_job"
version = "0.1.0"
edition = "2021"
publish = false

[dependencies]
sha2 = "0.10"
digest = "0.10"
memchr = "2"
openssl = "0.10"
foreign-types = "0.3"
libc = "0.2"
anyhow = "1"
thiserror = "1"
