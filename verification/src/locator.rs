//! The modular Java locator: sources contribute candidate installs, the
//! builder applies the configured filters and deduplicates by home
//! directory, first occurrence winning.

pub mod gradle;
pub mod intellij;
pub mod platform;

use vstd::prelude::*;
use vstd::seq_lib::*;
use crate::host::ScanEnv;
use crate::install::{JavaInstall, JavaVersion, Vendor, OS};
use crate::text::str_eq;

verus! {

/// Some collected install already claims this home directory.
pub open spec fn spec_has_home(installs: Seq<JavaInstall>, home: Seq<char>) -> bool {
    exists|k: int| 0 <= k < installs.len() && #[trigger] installs[k].java_home@ == home
}

/// No two installs share a home directory.
pub open spec fn spec_distinct_homes(installs: Seq<JavaInstall>) -> bool {
    forall|i: int, j: int|
        0 <= i < j < installs.len() ==> #[trigger] installs[i].java_home@ != #[trigger] installs[j].java_home@
}

/// Two collection steps compose: prefixes chain, and the elements added
/// across both steps are all well-formed.
pub proof fn lemma_extend_wf(a: Seq<JavaInstall>, b: Seq<JavaInstall>, c: Seq<JavaInstall>)
    requires
        a.is_prefix_of(b),
        b.is_prefix_of(c),
        forall|k: int| a.len() <= k < b.len() ==> #[trigger] b[k].wf(),
        forall|k: int| b.len() <= k < c.len() ==> #[trigger] c[k].wf(),
    ensures
        a.is_prefix_of(c),
        forall|k: int| a.len() <= k < c.len() ==> #[trigger] c[k].wf(),
{
    assert(a =~= c.subrange(0, a.len() as int));
    assert forall|k: int| a.len() <= k < c.len() implies #[trigger] c[k].wf() by {
        if k < b.len() {
            assert(b =~= c.subrange(0, b.len() as int));
            assert(c[k] == b[k]);
        }
    }
}

/// Append `install` unless an install with its home directory is already
/// present: the first occurrence wins.
pub fn add_install(installs: &mut Vec<JavaInstall>, install: Option<JavaInstall>)
    ensures
        match install {
            Option::Some(inst) => {
                &&& spec_has_home(old(installs)@, inst.java_home@) ==> final(installs)@ == old(
                    installs,
                )@
                &&& !spec_has_home(old(installs)@, inst.java_home@) ==> final(installs)@ == old(
                    installs,
                )@.push(inst)
            },
            Option::None => final(installs)@ == old(installs)@,
        },
        old(installs)@.is_prefix_of(final(installs)@),
        final(installs)@.len() <= old(installs)@.len() + 1,
        spec_distinct_homes(old(installs)@) ==> spec_distinct_homes(final(installs)@),
{
    let inst = match install {
        Option::Some(i) => i,
        Option::None => {
            assert(old(installs)@.is_prefix_of(installs@)) by {
                assert(installs@ =~= installs@.subrange(0, installs@.len() as int));
            }
            return ;
        },
    };
    let mut k: usize = 0;
    while k < installs.len()
        invariant
            k <= installs@.len(),
            installs@ == old(installs)@,
            install == Option::Some(inst),
            forall|j: int| 0 <= j < k ==> #[trigger] installs@[j].java_home@ != inst.java_home@,
        decreases installs@.len() - k,
    {
        if str_eq(installs[k].java_home.as_str(), inst.java_home.as_str()) {
            assert(spec_has_home(old(installs)@, inst.java_home@));
            assert(old(installs)@.is_prefix_of(installs@)) by {
                assert(installs@ =~= installs@.subrange(0, installs@.len() as int));
            }
            return ;
        }
        k = k + 1;
    }
    assert(!spec_has_home(installs@, inst.java_home@));
    let ghost pre = installs@;
    installs.push(inst);
    proof {
        assert(pre.is_prefix_of(installs@)) by {
            assert(pre =~= installs@.subrange(0, pre.len() as int));
        }
        if spec_distinct_homes(pre) {
            assert forall|i: int, j: int| 0 <= i < j < installs@.len() implies #[trigger] installs@[i].java_home@
                != #[trigger] installs@[j].java_home@ by {
                if j == installs@.len() - 1 {
                    assert(installs@[i] == pre[i]);
                }
            }
        }
    }
}

/// Probe the directory at `path` and collect its runtime, if one answers.
/// The expected `java` executable is formed under the platform home
/// offset; `javaw` is always preferred while probing on Windows, so that
/// no console window appears. Returns `None`, leaving the collection
/// unchanged, when no usable runtime answers from `path`.
pub fn find_add_install(
    env: &dyn ScanEnv,
    installs: &mut Vec<JavaInstall>,
    path: &str,
    os: OS,
) -> (r: Option<()>)
    ensures
        old(installs)@.is_prefix_of(final(installs)@),
        final(installs)@.len() <= old(installs)@.len() + 1,
        spec_distinct_homes(old(installs)@) ==> spec_distinct_homes(final(installs)@),
        forall|k: int|
            old(installs)@.len() <= k < final(installs)@.len() ==> #[trigger] final(installs)@[k].wf(),
        r is None ==> final(installs)@ == old(installs)@,
{
    proof {
        assert(installs@.is_prefix_of(installs@)) by {
            assert(installs@ =~= installs@.subrange(0, installs@.len() as int));
        }
    }
    let home = JavaInstall::get_home_dir(path, os);
    let executable = JavaInstall::get_java_executable(home.as_str(), true, os);
    if !env.file_exists(executable.as_str()) {
        return Option::None;
    }
    let inst = match JavaInstall::parse(env, executable.as_str()) {
        Option::Some(i) => i,
        Option::None => {
            return Option::None;
        },
    };
    add_install(installs, Option::Some(inst));
    Option::Some(())
}

/// Scan a directory whose children are candidate installs: probe each
/// child directly, and, when that fails and the child wraps exactly one
/// inner directory, probe that inner directory instead.
pub fn scan_folder(env: &dyn ScanEnv, installs: &mut Vec<JavaInstall>, dir: &str, os: OS)
    ensures
        old(installs)@.is_prefix_of(final(installs)@),
        spec_distinct_homes(old(installs)@) ==> spec_distinct_homes(final(installs)@),
        forall|k: int|
            old(installs)@.len() <= k < final(installs)@.len() ==> #[trigger] final(installs)@[k].wf(),
{
    let entries = env.list_dir(dir);
    let mut e: usize = 0;
    proof {
        assert(installs@.is_prefix_of(installs@)) by {
            assert(installs@ =~= installs@.subrange(0, installs@.len() as int));
        }
    }
    while e < entries.len()
        invariant
            e <= entries@.len(),
            old(installs)@.is_prefix_of(installs@),
            spec_distinct_homes(old(installs)@) ==> spec_distinct_homes(installs@),
            forall|k: int|
                old(installs)@.len() <= k < installs@.len() ==> #[trigger] installs@[k].wf(),
        decreases entries@.len() - e,
    {
        let ghost snap = installs@;
        if env.dir_exists(entries[e].as_str()) {
            probe_entry(env, installs, entries[e].as_str(), os);
        }
        proof {
            lemma_extend_wf(old(installs)@, snap, installs@);
        }
        e = e + 1;
    }
}

/// Probe one candidate directory: first the directory itself, then, if
/// that fails and it wraps exactly one inner entry, that inner entry.
/// This accommodates vendor archives that nest their installation inside
/// an outer release-named folder.
fn probe_entry(env: &dyn ScanEnv, installs: &mut Vec<JavaInstall>, path: &str, os: OS)
    ensures
        old(installs)@.is_prefix_of(final(installs)@),
        spec_distinct_homes(old(installs)@) ==> spec_distinct_homes(final(installs)@),
        forall|k: int|
            old(installs)@.len() <= k < final(installs)@.len() ==> #[trigger] final(installs)@[k].wf(),
{
    let found = find_add_install(env, installs, path, os);
    if found.is_some() {
        return ;
    }
    let ghost mid = installs@;
    let inners = env.list_dir(path);
    if inners.len() == 1 {
        find_add_install(env, installs, inners[0].as_str(), os);
        proof {
            lemma_extend_wf(old(installs)@, mid, installs@);
        }
    }
}

/// A locator capable of finding Java installations somewhere on the
/// system. Implementations outside this crate may contribute their own
/// sources through `LocatorBuilder::with_locator`.
pub trait JavaLocator {
    /// Finds all available Java installations this source knows of, or
    /// nothing when the source does not apply to this host.
    fn locate(&self, env: &dyn ScanEnv) -> Option<Vec<JavaInstall>>;
}

/// A modular Java locator: registered sources are visited in insertion
/// order, their results filtered and deduplicated by home directory.
pub struct LocatorBuilder {
    pub use_javaw: bool,
    pub ignore_openj9: bool,
    pub jdk_only: bool,
    pub filter: Option<JavaVersion>,
    pub vendor_filter: Option<Vendor>,
    pub children: Vec<Box<dyn JavaLocator>>,
}

impl LocatorBuilder {
    /// The conjunction of the configured filters on one install.
    pub open spec fn spec_matches_filters(self, inst: JavaInstall) -> bool {
        &&& (self.filter matches Option::Some(v) ==> inst.lang_version == v)
        &&& (!self.ignore_openj9 || !inst.is_openj9)
        &&& (!self.jdk_only || inst.is_jdk)
        &&& (self.vendor_filter matches Option::Some(v) ==> inst.known_vendor == Option::Some(v))
    }

    /// A builder with no sources, no filters, and all flags off.
    pub fn new() -> (r: Self)
        ensures
            !r.use_javaw,
            !r.ignore_openj9,
            !r.jdk_only,
            r.filter is None,
            r.vendor_filter is None,
            r.children@.len() == 0,
    {
        LocatorBuilder {
            use_javaw: false,
            ignore_openj9: false,
            jdk_only: false,
            filter: Option::None,
            vendor_filter: Option::None,
            children: Vec::new(),
        }
    }

    /// Prefer `javaw` over `java` on Windows when consumers derive
    /// executable paths from the results.
    pub fn use_javaw(&mut self)
        ensures
            *final(self) == (LocatorBuilder { use_javaw: true, ..*old(self) }),
    {
        self.use_javaw = true;
    }

    /// Exclude OpenJ9 runtimes from the results.
    pub fn ignore_openj9(&mut self)
        ensures
            *final(self) == (LocatorBuilder { ignore_openj9: true, ..*old(self) }),
    {
        self.ignore_openj9 = true;
    }

    /// Keep only installations that carry a compiler.
    pub fn jdk_only(&mut self)
        ensures
            *final(self) == (LocatorBuilder { jdk_only: true, ..*old(self) }),
    {
        self.jdk_only = true;
    }

    /// Keep only installations of the given major version.
    pub fn filter(&mut self, version: &JavaVersion)
        ensures
            *final(self) == (LocatorBuilder { filter: Option::Some(*version), ..*old(self) }),
    {
        self.filter = Option::Some(*version);
    }

    /// Keep only installations of the given recognized vendor.
    pub fn vendor_filter(&mut self, vendor: &Vendor)
        ensures
            *final(self) == (LocatorBuilder {
                vendor_filter: Option::Some(*vendor),
                ..*old(self)
            }),
    {
        self.vendor_filter = Option::Some(*vendor);
    }

    /// Register the platform locator for the host operating system.
    pub fn with_platform_locator(&mut self)
        ensures
            final(self).use_javaw == old(self).use_javaw,
            final(self).ignore_openj9 == old(self).ignore_openj9,
            final(self).jdk_only == old(self).jdk_only,
            final(self).filter == old(self).filter,
            final(self).vendor_filter == old(self).vendor_filter,
    {
        self.with_locator(Box::new(platform::PlatformJavaLocator::new()));
    }

    /// Register the Gradle toolchain locator.
    pub fn with_gradle_locator(&mut self)
        ensures
            final(self).use_javaw == old(self).use_javaw,
            final(self).ignore_openj9 == old(self).ignore_openj9,
            final(self).jdk_only == old(self).jdk_only,
            final(self).filter == old(self).filter,
            final(self).vendor_filter == old(self).vendor_filter,
    {
        self.with_locator(Box::new(gradle::GradleJavaLocator::new()));
    }

    /// Register the IntelliJ IDEA locator.
    pub fn with_intellij_locator(&mut self)
        ensures
            final(self).use_javaw == old(self).use_javaw,
            final(self).ignore_openj9 == old(self).ignore_openj9,
            final(self).jdk_only == old(self).jdk_only,
            final(self).filter == old(self).filter,
            final(self).vendor_filter == old(self).vendor_filter,
    {
        self.with_locator(Box::new(intellij::IntelliJJavaLocator::new()));
    }

    /// Register a custom locator source.
    pub fn with_locator(&mut self, locator: Box<dyn JavaLocator>)
        ensures
            final(self).children@ == old(self).children@.push(locator),
            final(self).use_javaw == old(self).use_javaw,
            final(self).ignore_openj9 == old(self).ignore_openj9,
            final(self).jdk_only == old(self).jdk_only,
            final(self).filter == old(self).filter,
            final(self).vendor_filter == old(self).vendor_filter,
    {
        self.children.push(locator);
    }

    /// Whether an install passes all configured filters.
    fn matches_filters(&self, inst: &JavaInstall) -> (r: bool)
        ensures
            r == self.spec_matches_filters(*inst),
    {
        let version_ok = match &self.filter {
            Option::Some(v) => inst.lang_version == *v,
            Option::None => true,
        };
        let openj9_ok = !self.ignore_openj9 || !inst.is_openj9;
        let jdk_ok = !self.jdk_only || inst.is_jdk;
        let vendor_ok = match &self.vendor_filter {
            Option::Some(v) => match &inst.known_vendor {
                Option::Some(kv) => *kv == *v,
                Option::None => false,
            },
            Option::None => true,
        };
        version_ok && openj9_ok && jdk_ok && vendor_ok
    }

    /// Visit every registered source in insertion order, filter what they
    /// found, and deduplicate by home directory, keeping the first
    /// occurrence. The result never holds two installs with equal home
    /// directories, and every returned install passes every configured
    /// filter.
    pub fn locate(&self, env: &dyn ScanEnv) -> (r: Vec<JavaInstall>)
        ensures
            spec_distinct_homes(r@),
            forall|i: int| 0 <= i < r@.len() ==> self.spec_matches_filters(#[trigger] r@[i]),
            self.children@.len() == 0 ==> r@.len() == 0,
    {
        let mut result: Vec<JavaInstall> = Vec::new();
        let mut c: usize = 0;
        while c < self.children.len()
            invariant
                c <= self.children@.len(),
                spec_distinct_homes(result@),
                forall|i: int|
                    0 <= i < result@.len() ==> self.spec_matches_filters(#[trigger] result@[i]),
                self.children@.len() == 0 ==> result@.len() == 0,
            decreases self.children@.len() - c,
        {
            match self.children[c].locate(env) {
                Option::Some(found) => {
                    let mut found = found;
                    while found.len() > 0
                        invariant
                            spec_distinct_homes(result@),
                            forall|i: int|
                                0 <= i < result@.len() ==> self.spec_matches_filters(
                                    #[trigger] result@[i],
                                ),
                        decreases found@.len(),
                    {
                        let inst = found.remove(0);
                        if self.matches_filters(&inst) {
                            let ghost pre = result@;
                            add_install(&mut result, Option::Some(inst));
                            proof {
                                if !spec_has_home(pre, inst.java_home@) {
                                    assert forall|i: int|
                                        0 <= i < result@.len() implies self.spec_matches_filters(
                                        #[trigger] result@[i],
                                    ) by {
                                        if i < pre.len() {
                                            assert(result@[i] == pre[i]);
                                        }
                                    }
                                }
                            }
                        }
                    }
                },
                Option::None => {},
            }
            c = c + 1;
        }
        result
    }
}

} // verus!
