//! Reconciles a local directory tree with a declared pack manifest: checks each
//! declared file against its digests, re-fetches what is missing or corrupt from
//! its mirrors in order, writes the bundled overrides and optionally prunes
//! untracked files. The decisions live here as a verified state machine; the
//! filesystem and network work is carried out by whoever drives it.

pub mod errors;
pub mod mod_manager;
pub mod mrpack;
pub mod overrides;
pub mod verify;
