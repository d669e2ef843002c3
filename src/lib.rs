//! A local secret vault: named secrets sealed with ChaCha20-Poly1305 at rest
//! in a durable keyed store, under a single persisted symmetric key.

pub mod cipher;
mod random;
pub mod keys;
pub mod storage;
pub mod vault;
pub mod cli;
