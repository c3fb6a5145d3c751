//! A locator for JVMs installed by Gradle toolchains under
//! `~/.gradle/jdks`.

use vstd::prelude::*;
use crate::host::ScanEnv;
use crate::install::{JavaInstall, OS};
use crate::locator::{scan_folder, JavaLocator};

verus! {

/// A JavaLocator capable of locating JVMs installed by Gradle toolchains.
pub struct GradleJavaLocator {}

impl GradleJavaLocator {
    /// A Gradle toolchain locator.
    pub fn new() -> GradleJavaLocator {
        GradleJavaLocator {  }
    }
}

impl JavaLocator for GradleJavaLocator {
    fn locate(&self, env: &dyn ScanEnv) -> Option<Vec<JavaInstall>> {
        let os = match env.os() {
            Option::Some(o) => o,
            Option::None => {
                return Option::None;
            },
        };
        let home = match env.home_dir() {
            Option::Some(h) => h,
            Option::None => {
                return Option::None;
            },
        };
        let dir = crate::install::path_join(home.as_str(), ".gradle/jdks");
        let mut vec: Vec<JavaInstall> = Vec::new();
        scan_folder(env, &mut vec, dir.as_str(), os);
        Option::Some(vec)
    }
}

} // verus!
