//! An in-memory credential vault.
//!
//! Entries are kept encrypted under AES-256-GCM, and the vault's type says
//! whether it is locked or unlocked: only an unlocked vault can be read or
//! extended.

pub mod cipher;
pub mod encryption;
pub mod manager;
mod text;
