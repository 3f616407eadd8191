//! A bridge that lets cryptographic work whose implementation can pause on
//! I/O run as a poll-based future, together with the salted hashing scheme
//! used to verify stored pass phrases.

pub mod b64;
pub mod ops;
pub mod sha256;
pub mod task;
