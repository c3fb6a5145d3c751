//! The provisioning manager: previously downloaded runtimes form a
//! content-addressed cache of manifests; a request is resolved first
//! against the cache, then against the registered provisioners, in order.

pub mod adoptium;

use vstd::prelude::*;
use vstd::seq_lib::*;
use crate::hashing::{hash_directory, FsTree};
use crate::install::{path_join, Architecture, JavaInstall, JavaVersion, Vendor, OS};
use crate::manifest::{manifest_from_json, manifest_to_json, valid_id, is_valid_id, Manifest};
use crate::provisioning::adoptium::{AdoptiumProvisioner, Release, ArchiveKind};
use crate::text::{str_eq, str_ends_with};

use rand::RngExt;

verus! {

/// An error surfaced by the provisioning system.
#[derive(Debug)]
pub enum ProvisionError {
    /// No provider could fulfill the request.
    NotFound(String),
    /// A filesystem or network operation failed.
    Io(String),
    /// A downloaded archive failed its size or checksum verification.
    Integrity(String),
}

impl ProvisionError {
    /// The human-readable message carried by this error.
    pub fn message(&self) -> &String {
        match self {
            ProvisionError::NotFound(m) => m,
            ProvisionError::Io(m) => m,
            ProvisionError::Integrity(m) => m,
        }
    }
}

/// What the provisioning side asks of the host: cache-directory
/// bookkeeping, file transfer, and archive extraction. Implementations
/// live outside the verified crate; nothing is promised of their answers.
pub trait ProvisionEnv {
    /// The host operating system, when recognized.
    fn os(&self) -> Option<OS>;

    /// The host CPU architecture, when recognized.
    fn arch(&self) -> Option<Architecture>;

    /// Create `path` and its parents; report success.
    fn ensure_dir(&self, path: &str) -> bool;

    /// The canonical absolute form of an existing directory.
    fn canonicalize_dir(&self, path: &str) -> Option<String>;

    /// The full paths of the direct children of `path`.
    fn list_dir(&self, path: &str) -> Vec<String>;

    /// The text of the file at `path`.
    fn read_text_file(&self, path: &str) -> Option<String>;

    /// Write `content` to `path`, atomically; report success.
    fn write_text_file(&self, path: &str, content: &str) -> bool;

    /// The raw bytes of the file at `path`.
    fn read_file_bytes(&self, path: &str) -> Option<Vec<u8>>;

    /// The file tree rooted at `path`, read into memory.
    fn read_tree(&self, path: &str) -> Option<FsTree>;

    /// Delete the file at `path`; report success.
    fn remove_file(&self, path: &str) -> bool;

    /// Fetch a vendor catalog URL and decode its release list; `None` on
    /// any network or decoding failure.
    fn fetch_releases(&self, url: &str) -> Option<Vec<Release>>;

    /// Stream `url` into the file at `dest`; report success.
    fn download(&self, url: &str, dest: &str) -> bool;

    /// Unpack the archive at `archive` into the directory `dest`.
    fn unpack_archive(&self, archive: &str, dest: &str, kind: ArchiveKind) -> bool;
}

/// A request for the provisioning system to fulfill.
#[derive(Debug)]
pub struct ProvisionRequest {
    pub version: JavaVersion,
    pub semver: Option<String>,
    pub jre_allowed: bool,
    pub x86_on_arm: bool,
}

impl ProvisionRequest {
    /// A request for any runtime of the given major version.
    pub fn from_version(version: JavaVersion) -> (r: Self)
        ensures
            r.version == version,
            r.semver is None,
            !r.jre_allowed,
            !r.x86_on_arm,
    {
        ProvisionRequest { version, semver: Option::None, jre_allowed: false, x86_on_arm: false }
    }

    /// A request pinned to one full version string; fails only when no
    /// major version can be read from it.
    pub fn from_semver(semver: String) -> (r: Option<Self>)
        ensures
            match r {
                Option::Some(req) => {
                    &&& crate::install::spec_parse_version(semver@) == Option::Some(req.version)
                    &&& req.semver matches Option::Some(s) && s == semver
                    &&& !req.jre_allowed
                    &&& !req.x86_on_arm
                },
                Option::None => crate::install::spec_parse_version(semver@) is None,
            },
    {
        let version = match JavaVersion::parse(semver.as_str()) {
            Option::Some(v) => v,
            Option::None => {
                return Option::None;
            },
        };
        Option::Some(
            ProvisionRequest {
                version,
                semver: Option::Some(semver),
                jre_allowed: false,
                x86_on_arm: false,
            },
        )
    }

    /// Allow the request to be fulfilled by a JRE. A JDK still satisfies
    /// it; this only asks newly provisioned runtimes to be JREs when one
    /// is available.
    pub fn with_jre_only(&mut self, jre_allowed: bool)
        ensures
            *final(self) == (ProvisionRequest { jre_allowed, ..*old(self) }),
    {
        self.jre_allowed = jre_allowed;
    }

    /// Allow an x86_64 runtime to fulfill an aarch64 request on hosts
    /// (Windows, macOS) that emulate x86_64.
    pub fn with_x86_on_arm(&mut self, x86_on_arm: bool)
        ensures
            *final(self) == (ProvisionRequest { x86_on_arm, ..*old(self) }),
    {
        self.x86_on_arm = x86_on_arm;
    }
}

/// The location and identity of a freshly installed runtime, before it is
/// indexed. `install_dir` is relative to the cache root it was installed
/// under.
#[derive(Debug)]
pub struct ProvisionResult {
    pub version: JavaVersion,
    pub known_vendor: Option<Vendor>,
    pub vendor: String,
    pub semver: String,
    pub architecture: Architecture,
    pub install_dir: String,
    pub is_jdk: bool,
}

/// A provider able to install a runtime satisfying a request. It handles
/// every step from catalog query to on-disk install directory, but writes
/// no manifests and allocates no ids: those are the manager's concerns.
pub trait JvmProvisioner {
    /// A human-readable name for log and error reporting.
    fn name(&self) -> &'static str;

    /// Install a runtime matching `request` under `base_dir`, returning
    /// its description with a `base_dir`-relative install directory.
    fn provision(&self, env: &dyn ProvisionEnv, base_dir: &str, request: &ProvisionRequest) -> (r:
        Result<ProvisionResult, ProvisionError>)
        ensures
            r matches Result::Ok(p) ==> p.version == request.version,
    ;
}

/// The Adoptium provisioner, boxed for registration.
pub fn adoptium() -> Box<dyn JvmProvisioner> {
    Box::new(AdoptiumProvisioner::new())
}

/// The semver pin of a request, as characters.
pub open spec fn spec_req_semver(r: ProvisionRequest) -> Option<Seq<char>> {
    match r.semver {
        Option::None => Option::None,
        Option::Some(s) => Option::Some(s@),
    }
}

/// Architecture compatibility of a cached runtime with the host: on Linux
/// every architecture is acceptable; elsewhere the manifest must match the
/// host architecture, or be x86_64 on an aarch64 host that allows the
/// substitution. An unrecognized host architecture filters nothing.
pub open spec fn spec_arch_compatible(
    a: Architecture,
    os: OS,
    host: Option<Architecture>,
    x86_on_arm: bool,
) -> bool {
    if os == OS::Linux {
        true
    } else {
        match host {
            Option::None => true,
            Option::Some(h) => a == h || (x86_on_arm && a == Architecture::X86_64 && h
                == Architecture::Aarch64),
        }
    }
}

/// The record at index `i` is Maven-maximal among the matching records:
/// no matching record's semver is newer than its own.
#[verifier::opaque]
pub open spec fn spec_is_newest(
    installs: Seq<Manifest>,
    request: ProvisionRequest,
    os: OS,
    host_arch: Option<Architecture>,
    i: int,
) -> bool {
    forall|j: int|
        0 <= j < installs.len() && spec_matches_request(
            #[trigger] installs[j]@,
            request,
            os,
            host_arch,
        ) ==> !mvn_less(installs[i]@.semver, installs[j]@.semver)
}

/// Some matching record is Maven-maximal among the matching records. For
/// the total order the Maven comparison implements this holds whenever
/// any record matches; it is stated as a hypothesis because the ordering
/// itself stands behind an uninterpreted name.
pub open spec fn spec_newest_match_exists(
    installs: Seq<Manifest>,
    request: ProvisionRequest,
    os: OS,
    host_arch: Option<Architecture>,
) -> bool {
    exists|i: int|
        0 <= i < installs.len() && spec_matches_request(
            #[trigger] installs[i]@,
            request,
            os,
            host_arch,
        ) && spec_is_newest(installs, request, os, host_arch, i)
}

/// Whether a cached manifest satisfies a request on the given host.
pub open spec fn spec_matches_request(
    m: crate::manifest::ManifestView,
    request: ProvisionRequest,
    os: OS,
    host_arch: Option<Architecture>,
) -> bool {
    &&& (request.jre_allowed || m.is_jdk)
    &&& m.version == request.version
    &&& (spec_req_semver(request) matches Option::Some(sv) ==> m.semver == sv)
    &&& spec_arch_compatible(m.architecture, os, host_arch, request.x86_on_arm)
}

/// Manages and provides JVM installations under one cache directory.
pub struct InstallationManager {
    pub base_dir: String,
    pub installs: Vec<Manifest>,
    pub provisioners: Vec<Box<dyn JvmProvisioner>>,
}

impl InstallationManager {
    /// The cache index is well-formed: every recorded id is a six
    /// character alphanumeric string, and no two records share an id.
    pub open spec fn wf(self) -> bool {
        &&& forall|i: int|
            0 <= i < self.installs@.len() ==> valid_id(#[trigger] self.installs@[i]@.id)
        &&& forall|i: int, j: int|
            0 <= i < j < self.installs@.len() ==> self.installs@[i]@.id != self.installs@[j]@.id
    }

    /// The index of the record with the given id, if one exists.
    fn find_by_id(installs: &Vec<Manifest>, id: &str) -> (r: Option<usize>)
        ensures
            match r {
                Option::Some(i) => i < installs@.len() && installs@[i as int]@.id == id@,
                Option::None => forall|i: int|
                    0 <= i < installs@.len() ==> #[trigger] installs@[i]@.id != id@,
            },
    {
        let mut i: usize = 0;
        while i < installs.len()
            invariant
                i <= installs@.len(),
                forall|j: int| 0 <= j < i ==> #[trigger] installs@[j]@.id != id@,
            decreases installs@.len() - i,
        {
            if str_eq(installs[i].id.as_str(), id) {
                return Option::Some(i);
            }
            i = i + 1;
        }
        Option::None
    }

    /// Open the cache at `base_dir`, creating it if need be, and rebuild
    /// the index from the manifest files at its top level. Files that
    /// cannot be read or parsed, records with invalid ids, and records
    /// whose id is already taken are skipped: a corrupt manifest never
    /// prevents the manager from starting.
    pub fn new(env: &dyn ProvisionEnv, base_dir: &str) -> (r: Result<
        InstallationManager,
        ProvisionError,
    >)
        ensures
            r matches Result::Ok(m) ==> m.wf() && m.provisioners@.len() == 0,
    {
        if !env.ensure_dir(base_dir) {
            return Result::Err(
                ProvisionError::Io(String::from_str("could not create the cache directory")),
            );
        }
        let canon = match env.canonicalize_dir(base_dir) {
            Option::Some(c) => c,
            Option::None => {
                return Result::Err(
                    ProvisionError::Io(String::from_str("could not resolve the cache directory")),
                );
            },
        };
        let files = env.list_dir(canon.as_str());
        let mut installs: Vec<Manifest> = Vec::new();
        let mut f: usize = 0;
        while f < files.len()
            invariant
                f <= files@.len(),
                forall|i: int| 0 <= i < installs@.len() ==> valid_id(#[trigger] installs@[i]@.id),
                forall|i: int, j: int|
                    0 <= i < j < installs@.len() ==> installs@[i]@.id != installs@[j]@.id,
            decreases files@.len() - f,
        {
            if str_ends_with(files[f].as_str(), ".json") {
                match env.read_text_file(files[f].as_str()) {
                    Option::Some(text) => {
                        match manifest_from_json(text.as_str()) {
                            Option::Some(m) => {
                                if is_valid_id(m.id.as_str()) {
                                    match Self::find_by_id(&installs, m.id.as_str()) {
                                        Option::None => {
                                            let ghost pre = installs@;
                                            installs.push(m);
                                            proof {
                                                assert forall|i: int, j: int|
                                                    0 <= i < j < installs@.len() implies installs@[i]@.id
                                                    != installs@[j]@.id by {
                                                    if j < pre.len() {
                                                        assert(installs@[i] == pre[i]);
                                                        assert(installs@[j] == pre[j]);
                                                    } else {
                                                        if i < pre.len() {
                                                            assert(installs@[i] == pre[i]);
                                                        }
                                                    }
                                                }
                                            }
                                        },
                                        Option::Some(_) => {},
                                    }
                                }
                            },
                            Option::None => {},
                        }
                    },
                    Option::None => {},
                }
            }
            f = f + 1;
        }
        Result::Ok(
            InstallationManager { base_dir: canon, installs, provisioners: Vec::new() },
        )
    }

    /// Register a provisioner; providers are consulted in registration
    /// order.
    pub fn with_provisioner(&mut self, provisioner: Box<dyn JvmProvisioner>)
        ensures
            final(self).base_dir == old(self).base_dir,
            final(self).installs == old(self).installs,
            final(self).provisioners@ == old(self).provisioners@.push(provisioner),
    {
        self.provisioners.push(provisioner);
    }

    /// Whether a cached record satisfies the request on the given host.
    fn matches_request(
        m: &Manifest,
        request: &ProvisionRequest,
        os: OS,
        host_arch: &Option<Architecture>,
    ) -> (r: bool)
        ensures
            r == spec_matches_request(m@, *request, os, *host_arch),
    {
        let jdk_ok = request.jre_allowed || m.is_jdk;
        let version_ok = m.version == request.version;
        let semver_ok = match &request.semver {
            Option::None => true,
            Option::Some(sv) => str_eq(m.semver.as_str(), sv.as_str()),
        };
        let arch_ok = if matches!(os, OS::Linux) {
            true
        } else {
            match host_arch {
                Option::None => true,
                Option::Some(h) => m.architecture == *h || (request.x86_on_arm && matches!(
                    m.architecture,
                    Architecture::X86_64,
                ) && matches!(h, Architecture::Aarch64)),
            }
        };
        jdk_ok && version_ok && semver_ok && arch_ok
    }

    /// Resolve the request against the cache alone: the home directory of
    /// a recorded installation satisfying it, or `None` exactly when no
    /// record matches. Among several matches the newest semver under
    /// Maven version ordering is preferred: whenever the ordering admits
    /// a Maven-maximal matching record at all — always, for the order the
    /// comparison implements — the returned record is one.
    #[verifier::rlimit(100)]
    fn find_existing(
        &self,
        request: &ProvisionRequest,
        os: OS,
        host_arch: &Option<Architecture>,
    ) -> (r: Option<String>)
        ensures
            match r {
                Option::Some(path) => exists|i: int|
                    {
                        &&& 0 <= i < self.installs@.len()
                        &&& spec_matches_request(
                            #[trigger] self.installs@[i]@,
                            *request,
                            os,
                            *host_arch,
                        )
                        &&& path@ == JavaInstall::spec_home_dir(
                            crate::install::spec_path_join(
                                self.base_dir@,
                                self.installs@[i]@.install_dir,
                            ),
                            os,
                        )
                        &&& spec_newest_match_exists(self.installs@, *request, os, *host_arch)
                            ==> spec_is_newest(self.installs@, *request, os, *host_arch, i)
                    },
                Option::None => forall|i: int|
                    0 <= i < self.installs@.len() ==> !spec_matches_request(
                        #[trigger] self.installs@[i]@,
                        *request,
                        os,
                        *host_arch,
                    ),
            },
    {
        let n = self.installs.len();
        // Remember the first matching record: the answer of last resort.
        let mut have_fallback = false;
        let mut fallback: usize = 0;
        let mut k: usize = 0;
        while k < n
            invariant
                n == self.installs@.len(),
                k <= n,
                have_fallback ==> fallback < n && spec_matches_request(
                    self.installs@[fallback as int]@,
                    *request,
                    os,
                    *host_arch,
                ),
                !have_fallback ==> forall|j: int|
                    0 <= j < k ==> !spec_matches_request(
                        #[trigger] self.installs@[j]@,
                        *request,
                        os,
                        *host_arch,
                    ),
            decreases n - k,
        {
            if !have_fallback && Self::matches_request(&self.installs[k], request, os, host_arch) {
                fallback = k;
                have_fallback = true;
            }
            k = k + 1;
        }
        if !have_fallback {
            return Option::None;
        }
        match self.newest_match_index(request, os, host_arch) {
            Option::Some(i) => {
                let joined = path_join(
                    self.base_dir.as_str(),
                    self.installs[i].install_dir.as_str(),
                );
                Option::Some(JavaInstall::get_home_dir(joined.as_str(), os))
            },
            Option::None => {
                // The ordering admits no maximal matching record; serve
                // the first match.
                let joined = path_join(
                    self.base_dir.as_str(),
                    self.installs[fallback].install_dir.as_str(),
                );
                Option::Some(JavaInstall::get_home_dir(joined.as_str(), os))
            },
        }
    }

    /// The first matching record that no matching record beats under the
    /// Maven ordering, or `None` exactly when the ordering admits no
    /// maximal matching record.
    #[verifier::rlimit(100)]
    fn newest_match_index(
        &self,
        request: &ProvisionRequest,
        os: OS,
        host_arch: &Option<Architecture>,
    ) -> (r: Option<usize>)
        ensures
            match r {
                Option::Some(i) => i < self.installs@.len() && spec_matches_request(
                    self.installs@[i as int]@,
                    *request,
                    os,
                    *host_arch,
                ) && spec_is_newest(self.installs@, *request, os, *host_arch, i as int),
                Option::None => !spec_newest_match_exists(
                    self.installs@,
                    *request,
                    os,
                    *host_arch,
                ),
            },
    {
        let n = self.installs.len();
        let mut i: usize = 0;
        while i < n
            invariant
                n == self.installs@.len(),
                i <= n,
                forall|p: int|
                    0 <= p < i && spec_matches_request(
                        #[trigger] self.installs@[p]@,
                        *request,
                        os,
                        *host_arch,
                    ) ==> !spec_is_newest(self.installs@, *request, os, *host_arch, p),
            decreases n - i,
        {
            if Self::matches_request(&self.installs[i], request, os, host_arch) {
                let mut beaten = false;
                let mut j: usize = 0;
                while j < n
                    invariant
                        n == self.installs@.len(),
                        j <= n,
                        i < n,
                        !beaten ==> forall|t: int|
                            0 <= t < j && spec_matches_request(
                                #[trigger] self.installs@[t]@,
                                *request,
                                os,
                                *host_arch,
                            ) ==> !mvn_less(
                                self.installs@[i as int]@.semver,
                                self.installs@[t]@.semver,
                            ),
                        beaten ==> exists|t: int|
                            0 <= t < n && spec_matches_request(
                                #[trigger] self.installs@[t]@,
                                *request,
                                os,
                                *host_arch,
                            ) && mvn_less(
                                self.installs@[i as int]@.semver,
                                self.installs@[t]@.semver,
                            ),
                    decreases n - j,
                {
                    if !beaten && Self::matches_request(&self.installs[j], request, os, host_arch)
                        && mvn_version_lt(
                        self.installs[i].semver.as_str(),
                        self.installs[j].semver.as_str(),
                    ) {
                        beaten = true;
                    }
                    j = j + 1;
                }
                if !beaten {
                    proof {
                        reveal(spec_is_newest);
                    }
                    return Option::Some(i);
                }
                proof {
                    reveal(spec_is_newest);
                    assert(!spec_is_newest(self.installs@, *request, os, *host_arch, i as int));
                }
            }
            i = i + 1;
        }
        proof {
            if spec_newest_match_exists(self.installs@, *request, os, *host_arch) {
                let i0 = choose|i: int|
                    0 <= i < self.installs@.len() && spec_matches_request(
                        #[trigger] self.installs@[i]@,
                        *request,
                        os,
                        *host_arch,
                    ) && spec_is_newest(self.installs@, *request, os, *host_arch, i);
                assert(false);
            }
        }
        Option::None
    }

    /// Draw a fresh six character alphanumeric id not yet present in the
    /// index. Collisions are rejected by drawing again; the number of
    /// draws is bounded so that the function provably terminates, and
    /// exhausting it (practically impossible) yields `None`.
    fn new_unique_id(&self) -> (r: Option<String>)
        ensures
            match r {
                Option::Some(id) => valid_id(id@) && forall|i: int|
                    0 <= i < self.installs@.len() ==> #[trigger] self.installs@[i]@.id != id@,
                Option::None => true,
            },
    {
        let mut tries: usize = 0;
        while tries < 1000
            decreases 1000 - tries,
        {
            let mut chars: Vec<char> = Vec::new();
            let mut k: usize = 0;
            while k < 6
                invariant
                    k <= 6,
                    chars@.len() == k,
                    forall|t: int|
                        0 <= t < chars@.len() ==> crate::spec_alphanumeric(#[trigger] chars@[t]),
                decreases 6 - k,
            {
                let b = random_alphanumeric();
                chars.push(b as char);
                k = k + 1;
            }
            let id = crate::text::string_from_chars(&chars);
            match Self::find_by_id(&self.installs, id.as_str()) {
                Option::None => {
                    return Option::Some(id);
                },
                Option::Some(_) => {},
            }
            tries = tries + 1;
        }
        Option::None
    }

    /// Ask the provisioning system to provide a JVM matching the request:
    /// the cache is consulted first, then each registered provisioner in
    /// order. The host operating system and architecture are read from
    /// the environment once and resolution proceeds through
    /// `provide_with_host`.
    pub fn provide(&mut self, env: &dyn ProvisionEnv, request: &ProvisionRequest) -> (r: Result<
        String,
        ProvisionError,
    >)
        requires
            old(self).wf(),
        ensures
            final(self).wf(),
            final(self).base_dir == old(self).base_dir,
            match r {
                Result::Ok(path) => {
                    ||| (final(self).installs@ == old(self).installs@ && exists|i: int, host: OS|
                        0 <= i < old(self).installs@.len() && path@
                            == #[trigger] JavaInstall::spec_home_dir(
                            crate::install::spec_path_join(
                                old(self).base_dir@,
                                old(self).installs@[i]@.install_dir,
                            ),
                            host,
                        ))
                    ||| (final(self).installs@.len() == old(self).installs@.len() + 1
                        && old(self).installs@.is_prefix_of(final(self).installs@)
                        && final(self).installs@.last()@.version == request.version
                        && valid_id(final(self).installs@.last()@.id)
                        && exists|host: OS|
                        path@ == #[trigger] JavaInstall::spec_home_dir(
                            crate::install::spec_path_join(
                                old(self).base_dir@,
                                final(self).installs@.last()@.install_dir,
                            ),
                            host,
                        ))
                },
                Result::Err(e) => final(self).installs@ == old(self).installs@,
            },
    {
        let os = match env.os() {
            Option::Some(o) => o,
            Option::None => {
                return Result::Err(
                    ProvisionError::NotFound(
                        String::from_str("the host operating system is not recognized"),
                    ),
                );
            },
        };
        let host_arch = env.arch();
        let r = self.provide_with_host(env, os, host_arch, request);
        proof {
            if r is Ok {
                let path = r->Ok_0;
                if self.installs@ == old(self).installs@ {
                    let i0 = choose|i: int|
                        0 <= i < old(self).installs@.len() && spec_matches_request(
                            #[trigger] old(self).installs@[i]@,
                            *request,
                            os,
                            host_arch,
                        ) && path@ == JavaInstall::spec_home_dir(
                            crate::install::spec_path_join(
                                old(self).base_dir@,
                                old(self).installs@[i]@.install_dir,
                            ),
                            os,
                        );
                    assert(path@ == JavaInstall::spec_home_dir(
                        crate::install::spec_path_join(
                            old(self).base_dir@,
                            old(self).installs@[i0]@.install_dir,
                        ),
                        os,
                    ));
                } else {
                    assert(path@ == JavaInstall::spec_home_dir(
                        crate::install::spec_path_join(
                            old(self).base_dir@,
                            self.installs@.last()@.install_dir,
                        ),
                        os,
                    ));
                }
            }
        }
        r
    }

    /// Resolve a request for a known host operating system and
    /// architecture. When a cached record already satisfies the request,
    /// its home directory is returned and nothing changes — in
    /// particular, no provisioner runs and no download happens. When none
    /// does, the provisioners run in registration order, and the first
    /// success is hashed, recorded under a fresh id, written as a
    /// manifest file, and returned; every provider failing is a
    /// `NotFound` error.
    pub fn provide_with_host(
        &mut self,
        env: &dyn ProvisionEnv,
        os: OS,
        host_arch: Option<Architecture>,
        request: &ProvisionRequest,
    ) -> (r: Result<String, ProvisionError>)
        requires
            old(self).wf(),
        ensures
            final(self).wf(),
            final(self).base_dir == old(self).base_dir,
            (exists|i: int|
                0 <= i < old(self).installs@.len() && spec_matches_request(
                    #[trigger] old(self).installs@[i]@,
                    *request,
                    os,
                    host_arch,
                )) ==> r is Ok && final(self).installs@ == old(self).installs@,
            match r {
                Result::Ok(path) => {
                    ||| (final(self).installs@ == old(self).installs@ && exists|i: int|
                        0 <= i < old(self).installs@.len() && spec_matches_request(
                            #[trigger] old(self).installs@[i]@,
                            *request,
                            os,
                            host_arch,
                        ) && path@ == JavaInstall::spec_home_dir(
                            crate::install::spec_path_join(
                                old(self).base_dir@,
                                old(self).installs@[i]@.install_dir,
                            ),
                            os,
                        ))
                    ||| (final(self).installs@.len() == old(self).installs@.len() + 1
                        && old(self).installs@.is_prefix_of(final(self).installs@)
                        && final(self).installs@.last()@.version == request.version
                        && valid_id(final(self).installs@.last()@.id)
                        && path@ == JavaInstall::spec_home_dir(
                            crate::install::spec_path_join(
                                old(self).base_dir@,
                                final(self).installs@.last()@.install_dir,
                            ),
                            os,
                        ))
                },
                Result::Err(e) => final(self).installs@ == old(self).installs@,
            },
    {
        match self.find_existing(request, os, &host_arch) {
            Option::Some(path) => {
                return Result::Ok(path);
            },
            Option::None => {},
        }
        let mut pi: usize = 0;
        while pi < self.provisioners.len()
            invariant
                self.wf(),
                self.base_dir == old(self).base_dir,
                self.installs == old(self).installs,
                self.provisioners@ == old(self).provisioners@,
                forall|i: int|
                    0 <= i < old(self).installs@.len() ==> !spec_matches_request(
                        #[trigger] old(self).installs@[i]@,
                        *request,
                        os,
                        host_arch,
                    ),
            decreases self.provisioners@.len() - pi,
        {
            let outcome = self.provisioners[pi].provision(
                env,
                self.base_dir.as_str(),
                request,
            );
            match outcome {
                Result::Ok(provisioned) => {
                    let install_abs = path_join(
                        self.base_dir.as_str(),
                        provisioned.install_dir.as_str(),
                    );
                    let tree = match env.read_tree(install_abs.as_str()) {
                        Option::Some(t) => t,
                        Option::None => {
                            return Result::Err(
                                ProvisionError::Io(
                                    String::from_str("could not read the installed tree"),
                                ),
                            );
                        },
                    };
                    let hash = hash_directory(&tree);
                    let id = match self.new_unique_id() {
                        Option::Some(id) => id,
                        Option::None => {
                            return Result::Err(
                                ProvisionError::Io(
                                    String::from_str("could not allocate a fresh cache id"),
                                ),
                            );
                        },
                    };
                    let manifest = Manifest {
                        id: id.clone(),
                        version: provisioned.version,
                        known_vendor: provisioned.known_vendor,
                        vendor: provisioned.vendor,
                        semver: provisioned.semver,
                        architecture: provisioned.architecture,
                        install_dir: provisioned.install_dir,
                        is_jdk: provisioned.is_jdk,
                        hash,
                    };
                    let text = manifest_to_json(&manifest);
                    let mut file_name = id.clone();
                    file_name.append(".json");
                    let file_path = path_join(self.base_dir.as_str(), file_name.as_str());
                    if !env.write_text_file(file_path.as_str(), text.as_str()) {
                        return Result::Err(
                            ProvisionError::Io(
                                String::from_str("could not write the manifest file"),
                            ),
                        );
                    }
                    let ghost pre = self.installs@;
                    self.installs.push(manifest);
                    proof {
                        assert(pre.is_prefix_of(self.installs@)) by {
                            assert(pre =~= self.installs@.subrange(0, pre.len() as int));
                        }
                        assert forall|i: int, j: int|
                            0 <= i < j < self.installs@.len() implies self.installs@[i]@.id
                            != self.installs@[j]@.id by {
                            if j < pre.len() {
                                assert(self.installs@[i] == pre[i]);
                                assert(self.installs@[j] == pre[j]);
                            } else {
                                if i < pre.len() {
                                    assert(self.installs@[i] == pre[i]);
                                }
                            }
                        }
                    }
                    return Result::Ok(JavaInstall::get_home_dir(install_abs.as_str(), os));
                },
                Result::Err(_) => {},
            }
            pi = pi + 1;
        }
        Result::Err(
            ProvisionError::NotFound(
                String::from_str("No providers were able to fulfill the request."),
            ),
        )
    }
}

/// After a manifest matching a request stands in the index, the cache
/// serves that request: resolution finds a match and adds nothing.
pub proof fn lemma_cache_serves_recorded_request(
    installs: Seq<Manifest>,
    k: int,
    request: ProvisionRequest,
    os: OS,
    host_arch: Option<Architecture>,
)
    requires
        0 <= k < installs.len(),
        spec_matches_request(installs[k]@, request, os, host_arch),
    ensures
        exists|i: int|
            0 <= i < installs.len() && spec_matches_request(
                #[trigger] installs[i]@,
                request,
                os,
                host_arch,
            ),
{
}

/// Whether `a` precedes `b` in Maven version ordering. The ordering is a
/// pure function of the two strings; its definition is not modelled here.
pub uninterp spec fn mvn_less(a: Seq<char>, b: Seq<char>) -> bool;

/// Relies on `mvn_version::ComparableVersion`: construction cannot fail
/// for any input, and comparison through its `Ord` implementation is a
/// pure function of the two version strings.
#[verifier::external_body]
fn mvn_version_lt(a: &str, b: &str) -> (r: bool)
    ensures
        r == mvn_less(a@, b@),
{
    mvn_version::ComparableVersion::new(a) < mvn_version::ComparableVersion::new(b)
}

/// Relies on `rand::rng` and the `Alphanumeric` distribution: every
/// sample is drawn from the ASCII letters and digits.
#[verifier::external_body]
fn random_alphanumeric() -> (c: u8)
    ensures
        crate::spec_alphanumeric(c as char),
{
    rand::rng().sample(rand::distr::Alphanumeric)
}

} // verus!
