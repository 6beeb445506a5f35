//! Derivation of a reproducible seed value from a passphrase, a timestamp and
//! a device fingerprint, together with the small JSON configuration record
//! that the seed is persisted in.

pub mod config;
pub mod decimal;
pub mod digest;
pub mod fingerprint;
pub mod hex;
pub mod seed;
pub mod text;
