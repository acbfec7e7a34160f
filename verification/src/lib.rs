//! Resolves the inventory a login greeter offers: the regular user accounts of
//! the machine and the desktop sessions that can be launched.
//!
//! Everything here works on plain values. The caller reads the login policy
//! file, enumerates the account database and reads the session files; this
//! crate decides what those contents mean.

pub mod account;
pub mod command;
pub mod namemap;
pub mod path;
pub mod pattern;
pub mod policy;
pub mod search;
pub mod session;
pub mod sysutil;
pub mod text;
