//! The host port: every question the locators ask of the machine they run
//! on. Implementations live outside the verified crate (a real one reads
//! the filesystem, spawns probe processes and opens registry keys; tests
//! supply an in-memory one). The trait promises nothing of its answers:
//! everything the crate concludes is proved for every possible answer.

use vstd::prelude::*;
use crate::install::{Architecture, OS};

verus! {

/// What a locator may ask of the host system.
pub trait ScanEnv {
    /// The host operating system, when recognized.
    fn os(&self) -> Option<OS>;

    /// The host CPU architecture, when recognized.
    fn arch(&self) -> Option<Architecture>;

    /// The current user's home directory.
    fn home_dir(&self) -> Option<String>;

    /// Whether `path` names an existing directory.
    fn dir_exists(&self, path: &str) -> bool;

    /// Whether `path` names an existing file.
    fn file_exists(&self, path: &str) -> bool;

    /// The full paths of the direct children of `path`; empty when `path`
    /// cannot be read.
    fn list_dir(&self, path: &str) -> Vec<String>;

    /// Run the property probe inside the runtime at `executable`, asking
    /// for the given property names, and return the child's standard
    /// output; `None` when the executable is missing or cannot be run.
    fn run_probe(&self, executable: &str, props: &Vec<String>) -> Option<String>;

    /// The names of the direct child keys of a `HKEY_LOCAL_MACHINE`
    /// registry key, as full key paths; empty off Windows or when the key
    /// is absent.
    fn registry_sub_keys(&self, key: &str) -> Vec<String>;

    /// A string value of a `HKEY_LOCAL_MACHINE` registry key.
    fn registry_value(&self, key: &str, name: &str) -> Option<String>;
}

} // verus!
