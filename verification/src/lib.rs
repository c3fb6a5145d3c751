//! Discovers, validates and provisions Java Virtual Machine installations
//! on a host, for tools that must pick a runtime by major version, full
//! version string, vendor or capability without trusting `PATH`.
//!
//! The locator side composes sources that enumerate candidate directories,
//! probes each candidate by running a small program inside it, and filters
//! and deduplicates the results. The provisioning side keeps previously
//! downloaded runtimes as a cache of manifest files, resolves requests
//! against that cache first, and otherwise downloads, integrity-checks,
//! unpacks and records a fresh runtime from a vendor catalog.
//!
//! Everything the host does — filesystem walks, probe processes, registry
//! reads, catalog calls, downloads — reaches the crate through the port
//! traits in [`host`] and [`provisioning`]; implementations live with the
//! caller, and every conclusion proved here holds whatever they answer.

pub mod install;
pub mod text;
pub mod hashing;
pub mod host;
pub mod extract;
pub mod locator;
pub mod manifest;
pub mod provisioning;

use vstd::prelude::*;

verus! {

/// True when `c` is an ASCII letter or digit.
pub open spec fn spec_alphanumeric(c: char) -> bool {
    ('0' <= c && c <= '9') || ('a' <= c && c <= 'z') || ('A' <= c && c <= 'Z')
}

/// Executable check matching `spec_alphanumeric`.
pub fn is_alphanumeric_char(c: char) -> (r: bool)
    ensures
        r == spec_alphanumeric(c),
{
    ('0' <= c && c <= '9') || ('a' <= c && c <= 'z') || ('A' <= c && c <= 'Z')
}

} // verus!
