//! A locator for JVMs installed in well-known platform locations:
//! common Linux directories, macOS `JavaVirtualMachines` roots, and on
//! Windows the vendor registry hives followed by the usual
//! `Program Files` directories.

use vstd::prelude::*;
use vstd::seq_lib::*;
use crate::host::ScanEnv;
use crate::install::{path_join, JavaInstall, OS};
use crate::locator::{
    find_add_install, lemma_extend_wf, scan_folder, spec_distinct_homes, JavaLocator,
};

verus! {

/// A JavaLocator capable of locating JVMs installed in known platform
/// specific system paths or registry locations.
pub struct PlatformJavaLocator {}

impl PlatformJavaLocator {
    /// A platform locator for the host operating system.
    pub fn new() -> PlatformJavaLocator {
        PlatformJavaLocator {  }
    }
}

/// Walk one family of vendor registry roots: enumerate each root's direct
/// child keys (the versioned install entries), descend into the given
/// suffix key when one applies, read the named string value, and probe the
/// directory it names.
fn scan_registry(
    env: &dyn ScanEnv,
    installs: &mut Vec<JavaInstall>,
    keys: &[&str],
    key_suffix: &str,
    path_key: &str,
    os: OS,
)
    ensures
        old(installs)@.is_prefix_of(final(installs)@),
        spec_distinct_homes(old(installs)@) ==> spec_distinct_homes(final(installs)@),
        forall|k: int|
            old(installs)@.len() <= k < final(installs)@.len() ==> #[trigger] final(installs)@[k].wf(),
{
    proof {
        assert(installs@.is_prefix_of(installs@)) by {
            assert(installs@ =~= installs@.subrange(0, installs@.len() as int));
        }
    }
    let mut i: usize = 0;
    while i < keys.len()
        invariant
            i <= keys@.len(),
            old(installs)@.is_prefix_of(installs@),
            spec_distinct_homes(old(installs)@) ==> spec_distinct_homes(installs@),
            forall|k: int|
                old(installs)@.len() <= k < installs@.len() ==> #[trigger] installs@[k].wf(),
        decreases keys@.len() - i,
    {
        let subs = env.registry_sub_keys(keys[i]);
        let mut j: usize = 0;
        while j < subs.len()
            invariant
                j <= subs@.len(),
                old(installs)@.is_prefix_of(installs@),
                spec_distinct_homes(old(installs)@) ==> spec_distinct_homes(installs@),
                forall|k: int|
                    old(installs)@.len() <= k < installs@.len() ==> #[trigger] installs@[k].wf(),
            decreases subs@.len() - j,
        {
            let mut target = subs[j].clone();
            if key_suffix.unicode_len() > 0 {
                target.append("\\");
                target.append(key_suffix);
            }
            match env.registry_value(target.as_str(), path_key) {
                Option::Some(path) => {
                    let ghost snap = installs@;
                    find_add_install(env, installs, path.as_str(), os);
                    proof {
                        lemma_extend_wf(old(installs)@, snap, installs@);
                    }
                },
                Option::None => {},
            }
            j = j + 1;
        }
        i = i + 1;
    }
}

impl JavaLocator for PlatformJavaLocator {
    fn locate(&self, env: &dyn ScanEnv) -> Option<Vec<JavaInstall>> {
        let os = match env.os() {
            Option::Some(o) => o,
            Option::None => {
                return Option::None;
            },
        };
        let mut vec: Vec<JavaInstall> = Vec::new();
        match os {
            OS::Linux => {
                // Oracle's own location, common distribution locations,
                // then manually installed locations.
                scan_folder(env, &mut vec, "/usr/java", os);
                scan_folder(env, &mut vec, "/usr/lib/jvm", os);
                scan_folder(env, &mut vec, "/usr/lib32/jvm", os);
                scan_folder(env, &mut vec, "/opt/jdk", os);
                scan_folder(env, &mut vec, "/opt/jdks", os);
                let home = match env.home_dir() {
                    Option::Some(h) => h,
                    Option::None => {
                        return Option::None;
                    },
                };
                let local = path_join(home.as_str(), ".local/jdks");
                scan_folder(env, &mut vec, local.as_str(), os);
            },
            OS::MacOS => {
                scan_folder(env, &mut vec, "/Library/Java/JavaVirtualMachines/", os);
                scan_folder(env, &mut vec, "/System/Library/Java/JavaVirtualMachines/", os);
            },
            OS::Windows => {
                // Oracle.
                let oracle = [
                    "SOFTWARE\\JavaSoft\\Java Development Kit",
                    "SOFTWARE\\JavaSoft\\Java Runtime Environment",
                    "SOFTWARE\\JavaSoft\\JRE",
                    "SOFTWARE\\JavaSoft\\JDK",
                    "SOFTWARE\\Wow6432Node\\JavaSoft\\Java Development Kit",
                    "SOFTWARE\\Wow6432Node\\JavaSoft\\Java Runtime Environment",
                    "SOFTWARE\\Wow6432Node\\JavaSoft\\JRE",
                    "SOFTWARE\\Wow6432Node\\JavaSoft\\JDK",
                ];
                // AdoptOpenJDK, the Adoptium predecessor.
                let adopt_open_jdk = [
                    "SOFTWARE\\AdoptOpenJDK\\JDK",
                    "SOFTWARE\\AdoptOpenJDK\\JRE",
                    "SOFTWARE\\Wow6432Node\\AdoptOpenJDK\\JDK",
                    "SOFTWARE\\Wow6432Node\\AdoptOpenJDK\\JRE",
                ];
                // Adoptium, the AdoptOpenJDK successor.
                let adoptium = [
                    "SOFTWARE\\Eclipse Foundation\\JDK",
                    "SOFTWARE\\Eclipse Foundation\\JRE",
                    "SOFTWARE\\Wow6432Node\\Eclipse Foundation\\JDK",
                    "SOFTWARE\\Wow6432Node\\Eclipse Foundation\\JRE",
                    "SOFTWARE\\Eclipse Adoptium\\JDK",
                    "SOFTWARE\\Eclipse Adoptium\\JRE",
                    "SOFTWARE\\Wow6432Node\\Eclipse Adoptium\\JDK",
                    "SOFTWARE\\Wow6432Node\\Eclipse Adoptium\\JRE",
                ];
                // Microsoft.
                let microsoft = [
                    "SOFTWARE\\Microsoft\\JDK",
                    "SOFTWARE\\Microsoft\\JRE",
                    "SOFTWARE\\Wow6432Node\\Microsoft\\JDK",
                    "SOFTWARE\\Wow6432Node\\Microsoft\\JRE",
                ];
                // Search known registry keys first: Oracle entries name
                // their home directly, OpenJDK-lineage entries keep it
                // under their MSI key.
                scan_registry(env, &mut vec, &oracle, "", "JavaHome", os);
                scan_registry(env, &mut vec, &adopt_open_jdk, "hotspot\\MSI", "Path", os);
                scan_registry(env, &mut vec, &adoptium, "hotspot\\MSI", "Path", os);
                scan_registry(env, &mut vec, &microsoft, "hotspot\\MSI", "Path", os);
                // Then try again in known install directories.
                let paths = [
                    "C:/Program Files/AdoptOpenJDK/",
                    "C:/Program Files/Eclipse Foundation/",
                    "C:/Program Files/Eclipse Adoptium/",
                    "C:/Program Files/Java/",
                    "C:/Program Files/Microsoft/",
                    "C:/Program Files (x86)/AdoptOpenJDK/",
                    "C:/Program Files (x86)/Eclipse Foundation/",
                    "C:/Program Files (x86)/Eclipse Adoptium/",
                    "C:/Program Files (x86)/Java",
                    "C:/Program Files (x86)/Microsoft/",
                ];
                let mut p: usize = 0;
                while p < paths.len()
                    decreases paths@.len() - p,
                {
                    scan_folder(env, &mut vec, paths[p], os);
                    p = p + 1;
                }
            },
        }
        Option::Some(vec)
    }
}

} // verus!
