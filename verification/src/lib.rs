//! kytti: the rules of a read-only gateway to a HashiCorp Vault KV v2 store.
//!
//! Everything a gateway decides stands in this library: which paths may be
//! asked for, which request goes to Vault for them, what a reply of Vault means,
//! what the caller is told, and how the configuration is checked and replaced.
//! Files, sockets and timers stay with the program around it.

pub mod calls;
pub mod config;
pub mod errors;
pub mod json;
pub mod laws;
pub mod map;
pub mod promises;
pub mod startup;
pub mod text;
pub mod tools;
pub mod vault;

