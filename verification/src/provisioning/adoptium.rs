//! The Adoptium (Eclipse Temurin) provisioner: queries the vendor
//! catalog, picks the first usable release, downloads and
//! integrity-checks its package, and unpacks it under the cache root.

use vstd::prelude::*;
use vstd::string::*;
use crate::hashing::{hex_of, sha256_hex, sha256_of};
use crate::install::{path_join, path_file_name, Architecture, JavaVersion, OS};
use crate::provisioning::{JvmProvisioner, ProvisionEnv, ProvisionError, ProvisionRequest, ProvisionResult};
use crate::install::Vendor;
use crate::text::{chars_range_string, dec_digits, spec_ends_with, str_chars, str_ends_with, str_eq};

verus! {

/// The consumed subset of one catalog package: the downloadable archive.
#[derive(Debug)]
pub struct Package {
    pub name: String,
    pub link: String,
    pub size: i64,
    pub checksum: String,
}

/// The consumed subset of one catalog binary.
#[derive(Debug)]
pub struct Binary {
    pub package: Option<Package>,
    pub image_type: String,
}

/// The consumed subset of one catalog release.
#[derive(Debug)]
pub struct Release {
    pub openjdk_version: String,
    pub binaries: Vec<Binary>,
}

/// The archive formats the provisioner can unpack.
#[derive(Debug, PartialEq, Eq, Clone, Copy, Structural)]
pub enum ArchiveKind {
    Zip,
    TarGz,
}

/// The release and package chosen to fulfill a request.
#[derive(Debug)]
pub struct SelectedRelease {
    pub name: String,
    pub link: String,
    pub size: i64,
    pub checksum: String,
    pub image_type: String,
    pub openjdk_version: String,
    pub architecture: Architecture,
}

/// The catalog's name for an architecture.
pub open spec fn spec_arch_query(a: Architecture) -> Seq<char> {
    match a {
        Architecture::X86 => "x86"@,
        Architecture::X86_64 => "x64"@,
        Architecture::Arm => "arm"@,
        Architecture::Aarch64 => "aarch64"@,
        Architecture::Powerpc => "ppc"@,
        Architecture::Powerpc64 => "ppc64"@,
    }
}

/// The catalog's name for an operating system.
pub open spec fn spec_os_query(os: OS) -> Seq<char> {
    match os {
        OS::Linux => "linux"@,
        OS::MacOS => "mac"@,
        OS::Windows => "windows"@,
    }
}

/// The catalog's name for an architecture, as a string slice.
fn arch_query(a: &Architecture) -> (r: &'static str)
    ensures
        r@ == spec_arch_query(*a),
{
    match a {
        Architecture::X86 => "x86",
        Architecture::X86_64 => "x64",
        Architecture::Arm => "arm",
        Architecture::Aarch64 => "aarch64",
        Architecture::Powerpc => "ppc",
        Architecture::Powerpc64 => "ppc64",
    }
}

/// The catalog's name for an operating system, as a string slice.
fn os_query(os: &OS) -> (r: &'static str)
    ensures
        r@ == spec_os_query(*os),
{
    match os {
        OS::Linux => "linux",
        OS::MacOS => "mac",
        OS::Windows => "windows",
    }
}

/// The catalog URL asked for a query: the assets of one feature release
/// line (or one pinned version), narrowed to the requested image type,
/// architecture and operating system.
pub open spec fn spec_url(
    os: OS,
    arch: Architecture,
    version: JavaVersion,
    semver: Option<Seq<char>>,
    jre: bool,
) -> Seq<char> {
    "https://api.adoptium.net/v3/assets"@ + (match semver {
        Option::Some(sv) => "/version/"@ + sv,
        Option::None => "/feature_releases/"@ + dec_digits(version.spec_number()) + "/ga"@,
    }) + "?project=jdk"@ + "&image_type="@ + (if jre {
        "jre"@
    } else {
        "jdk"@
    }) + "&vendor=eclipse"@ + "&jvm_impl=hotspot"@ + "&heap_size=normal"@ + "&architecture="@
        + spec_arch_query(arch) + "&os="@ + spec_os_query(os)
}

/// One query of the selection cascade: the architecture asked for and
/// whether a JRE image is asked for.
#[derive(Debug, PartialEq, Eq, Clone, Copy, Structural)]
pub struct Query {
    pub arch: Architecture,
    pub jre: bool,
}

/// The selection cascade for a request on the given host: the host
/// architecture first (a JRE first when allowed, then a JDK), and, on an
/// aarch64 host other than Linux that allows the substitution, the same
/// pair again for x86_64.
pub open spec fn spec_query_plan(os: OS, arch: Architecture, request: ProvisionRequest) -> Seq<
    Query,
> {
    let native = if request.jre_allowed {
        seq![Query { arch, jre: true }, Query { arch, jre: false }]
    } else {
        seq![Query { arch, jre: false }]
    };
    if arch == Architecture::Aarch64 && os != OS::Linux && request.x86_on_arm {
        let fallback = if request.jre_allowed {
            seq![
                Query { arch: Architecture::X86_64, jre: true },
                Query { arch: Architecture::X86_64, jre: false },
            ]
        } else {
            seq![Query { arch: Architecture::X86_64, jre: false }]
        };
        native + fallback
    } else {
        native
    }
}

/// A provisioner backed by the Adoptium vendor catalog.
pub struct AdoptiumProvisioner {}

impl AdoptiumProvisioner {
    /// An Adoptium provisioner.
    pub fn new() -> AdoptiumProvisioner {
        AdoptiumProvisioner {  }
    }

    /// Build the catalog URL for a query.
    pub fn url(
        os: &OS,
        arch: &Architecture,
        version: &JavaVersion,
        semver: &Option<String>,
        jre: bool,
    ) -> (r: String)
        ensures
            r@ == spec_url(*os, *arch, *version, crate::provisioning::spec_req_semver(
                ProvisionRequest {
                    version: *version,
                    semver: *semver,
                    jre_allowed: false,
                    x86_on_arm: false,
                },
            ), jre),
    {
        let mut url = String::from_str("https://api.adoptium.net/v3/assets");
        match semver {
            Option::Some(sv) => {
                url.append("/version/");
                url.append(sv.as_str());
            },
            Option::None => {
                url.append("/feature_releases/");
                let short = version.short_string();
                url.append(short.as_str());
                url.append("/ga");
            },
        }
        url.append("?project=jdk");
        url.append("&image_type=");
        if jre {
            url.append("jre");
        } else {
            url.append("jdk");
        }
        url.append("&vendor=eclipse");
        url.append("&jvm_impl=hotspot");
        url.append("&heap_size=normal");
        url.append("&architecture=");
        url.append(arch_query(arch));
        url.append("&os=");
        url.append(os_query(os));
        proof {
            assert(url@ =~= spec_url(*os, *arch, *version, match semver {
                Option::Some(sv) => Option::Some(sv@),
                Option::None => Option::None,
            }, jre));
        }
        url
    }

    /// The selection cascade for a request on the given host.
    pub fn query_plan(os: &OS, arch: &Architecture, request: &ProvisionRequest) -> (r: Vec<Query>)
        ensures
            r@ == spec_query_plan(*os, *arch, *request),
    {
        let mut plan: Vec<Query> = Vec::new();
        if request.jre_allowed {
            plan.push(Query { arch: *arch, jre: true });
        }
        plan.push(Query { arch: *arch, jre: false });
        if matches!(arch, Architecture::Aarch64) && !matches!(os, OS::Linux) && request.x86_on_arm {
            if request.jre_allowed {
                plan.push(Query { arch: Architecture::X86_64, jre: true });
            }
            plan.push(Query { arch: Architecture::X86_64, jre: false });
        }
        proof {
            assert(plan@ =~= spec_query_plan(*os, *arch, *request));
        }
        plan
    }

    /// Pick from a catalog answer: the first release, its first binary,
    /// and that binary's package; a missing package rejects the answer.
    pub fn select_release(releases: Vec<Release>, arch: Architecture) -> (r: Option<
        SelectedRelease,
    >)
        ensures
            match r {
                Option::Some(s) => {
                    &&& releases@.len() > 0
                    &&& releases@[0].binaries@.len() > 0
                    &&& releases@[0].binaries@[0].package is Some
                    &&& s.name == releases@[0].binaries@[0].package->Some_0.name
                    &&& s.link == releases@[0].binaries@[0].package->Some_0.link
                    &&& s.size == releases@[0].binaries@[0].package->Some_0.size
                    &&& s.checksum == releases@[0].binaries@[0].package->Some_0.checksum
                    &&& s.image_type == releases@[0].binaries@[0].image_type
                    &&& s.openjdk_version == releases@[0].openjdk_version
                    &&& s.architecture == arch
                },
                Option::None => releases@.len() == 0 || releases@[0].binaries@.len() == 0
                    || releases@[0].binaries@[0].package is None,
            },
    {
        let mut releases = releases;
        if releases.len() == 0 {
            return Option::None;
        }
        let release = releases.remove(0);
        let mut binaries = release.binaries;
        if binaries.len() == 0 {
            return Option::None;
        }
        let binary = binaries.remove(0);
        match binary.package {
            Option::Some(pkg) => Option::Some(
                SelectedRelease {
                    name: pkg.name,
                    link: pkg.link,
                    size: pkg.size,
                    checksum: pkg.checksum,
                    image_type: binary.image_type,
                    openjdk_version: release.openjdk_version,
                    architecture: arch,
                },
            ),
            Option::None => Option::None,
        }
    }

    /// Run one catalog query and pick from its answer.
    fn api_request(
        env: &dyn ProvisionEnv,
        os: &OS,
        arch: &Architecture,
        version: &JavaVersion,
        semver: &Option<String>,
        jre: bool,
    ) -> (r: Option<SelectedRelease>)
        ensures
            r matches Option::Some(s) ==> s.architecture == *arch,
    {
        let url = Self::url(os, arch, version, semver, jre);
        match env.fetch_releases(url.as_str()) {
            Option::Some(releases) => Self::select_release(releases, *arch),
            Option::None => Option::None,
        }
    }

    /// Walk the selection cascade and keep the first answer. A selected
    /// release is always for the host architecture, or for x86_64 when
    /// the request allows that substitution on an aarch64 host other
    /// than Linux.
    pub fn select_compatible(
        env: &dyn ProvisionEnv,
        os: &OS,
        arch: &Architecture,
        request: &ProvisionRequest,
    ) -> (r: Option<SelectedRelease>)
        ensures
            r matches Option::Some(s) ==> s.architecture == *arch || (request.x86_on_arm && *os
                != OS::Linux && *arch == Architecture::Aarch64 && s.architecture
                == Architecture::X86_64),
    {
        let plan = Self::query_plan(os, arch, request);
        let mut q: usize = 0;
        while q < plan.len()
            invariant
                plan@ == spec_query_plan(*os, *arch, *request),
            decreases plan@.len() - q,
        {
            let step = plan[q];
            proof {
                assert(spec_query_plan(*os, *arch, *request)[q as int].arch == *arch
                    || (request.x86_on_arm && *os != OS::Linux && *arch == Architecture::Aarch64
                    && spec_query_plan(*os, *arch, *request)[q as int].arch
                    == Architecture::X86_64));
            }
            match Self::api_request(env, os, &step.arch, &request.version, &request.semver, step.jre) {
                Option::Some(s) => {
                    return Option::Some(s);
                },
                Option::None => {},
            }
            q = q + 1;
        }
        Option::None
    }

    /// Download the selected package to `dest` and verify it: the file's
    /// length must equal the published size and its SHA-256 checksum the
    /// published checksum. Success means some byte string of exactly the
    /// published size and checksum now stands at `dest`.
    fn download_binary(env: &dyn ProvisionEnv, dest: &str, selected: &SelectedRelease) -> (r:
        Result<(), ProvisionError>)
        ensures
            r is Ok ==> exists|b: Seq<u8>|
                b.len() == selected.size && hex_of(#[trigger] sha256_of(b)) == selected.checksum@,
    {
        if !env.download(selected.link.as_str(), dest) {
            return Result::Err(
                ProvisionError::Io(String::from_str("the download could not be completed")),
            );
        }
        let bytes = match env.read_file_bytes(dest) {
            Option::Some(b) => b,
            Option::None => {
                return Result::Err(
                    ProvisionError::Io(String::from_str("the downloaded file could not be read")),
                );
            },
        };
        if selected.size < 0 || bytes.len() as u64 != selected.size as u64 {
            return Result::Err(
                ProvisionError::Integrity(
                    String::from_str("the downloaded file does not match the published length"),
                ),
            );
        }
        let hash = sha256_hex(&bytes);
        if !str_eq(hash.as_str(), selected.checksum.as_str()) {
            return Result::Err(
                ProvisionError::Integrity(
                    String::from_str("the downloaded file does not match the published checksum"),
                ),
            );
        }
        assert(bytes@.len() == selected.size);
        Result::Ok(())
    }

    /// The archive base name and format read off a package file name.
    fn split_extension(name: &str) -> (r: Option<(String, ArchiveKind)>)
        ensures
            match r {
                Option::Some(p) => {
                    ||| (p.1 == ArchiveKind::Zip && spec_ends_with(name@, ".zip"@) && p.0@
                        == name@.subrange(0, name@.len() - 4))
                    ||| (p.1 == ArchiveKind::TarGz && spec_ends_with(name@, ".tar.gz"@)
                        && !spec_ends_with(name@, ".zip"@) && p.0@ == name@.subrange(
                        0,
                        name@.len() - 7,
                    ))
                },
                Option::None => !spec_ends_with(name@, ".zip"@) && !spec_ends_with(
                    name@,
                    ".tar.gz"@,
                ),
            },
    {
        proof {
            reveal_strlit(".zip");
            reveal_strlit(".tar.gz");
        }
        let v = str_chars(name);
        if str_ends_with(name, ".zip") {
            let stem = chars_range_string(&v, 0, v.len() - 4);
            Option::Some((stem, ArchiveKind::Zip))
        } else if str_ends_with(name, ".tar.gz") {
            let stem = chars_range_string(&v, 0, v.len() - 7);
            Option::Some((stem, ArchiveKind::TarGz))
        } else {
            Option::None
        }
    }

    /// Decide the install directory from the unpack destination's
    /// entries: exactly one entry means the archive wrapped its own root
    /// folder, which becomes the install directory under the stem; any
    /// other count leaves the stem itself.
    fn install_dir_of(stem: &str, entries: &Vec<String>) -> (r: String)
        ensures
            entries@.len() == 1 ==> r@ == crate::install::spec_path_join(
                stem@,
                crate::install::spec_file_name(entries@[0]@),
            ),
            entries@.len() != 1 ==> r@ == stem@,
    {
        if entries.len() == 1 {
            let inner = path_file_name(entries[0].as_str());
            path_join(stem, inner.as_str())
        } else {
            stem.to_owned()
        }
    }

    /// Unpack the downloaded archive into a directory named after it, and
    /// decide the install directory: the archive's single wrapped root
    /// folder when there is exactly one entry, the destination itself
    /// otherwise. The returned path is relative to `base_dir`, so that
    /// installs for different platforms and versions can stand side by
    /// side: on success it is the archive name's stem, or the stem joined
    /// with the one wrapped entry.
    fn extract(env: &dyn ProvisionEnv, base_dir: &str, archive_name: &str) -> (r: Result<
        String,
        ProvisionError,
    >)
        ensures
            r matches Result::Ok(d) ==> (spec_ends_with(archive_name@, ".zip"@) || spec_ends_with(
                archive_name@,
                ".tar.gz"@,
            )) && (d@ == spec_archive_stem(archive_name@) || exists|inner: Seq<char>|
                d@ == crate::install::spec_path_join(spec_archive_stem(archive_name@), inner)),
    {
        let (stem, kind) = match Self::split_extension(archive_name) {
            Option::Some(p) => p,
            Option::None => {
                return Result::Err(
                    ProvisionError::Io(
                        String::from_str("unknown archive format, unable to extract"),
                    ),
                );
            },
        };
        assert(stem@ == spec_archive_stem(archive_name@));
        let archive_abs = path_join(base_dir, archive_name);
        let dest_abs = path_join(base_dir, stem.as_str());
        if !env.unpack_archive(archive_abs.as_str(), dest_abs.as_str(), kind) {
            return Result::Err(
                ProvisionError::Io(String::from_str("the archive could not be unpacked")),
            );
        }
        let entries = env.list_dir(dest_abs.as_str());
        let chosen = Self::install_dir_of(stem.as_str(), &entries);
        Result::Ok(chosen)
    }

    /// The provisioner's result for a release selected to fulfill a
    /// request: the requested version, the Temurin identity, and the
    /// selection's own semver, architecture and image type.
    fn provision_result(
        request: &ProvisionRequest,
        selected: SelectedRelease,
        install_dir: String,
    ) -> (r: ProvisionResult)
        ensures
            r.version == request.version,
            r.known_vendor == Option::Some(Vendor::Temurin),
            r.vendor@ == "Temurin"@,
            r.semver == selected.openjdk_version,
            r.architecture == selected.architecture,
            r.install_dir == install_dir,
            r.is_jdk == (selected.image_type@ == "jdk"@),
    {
        let is_jdk = str_eq(selected.image_type.as_str(), "jdk");
        ProvisionResult {
            version: request.version,
            known_vendor: Option::Some(Vendor::Temurin),
            vendor: String::from_str("Temurin"),
            semver: selected.openjdk_version,
            architecture: selected.architecture,
            install_dir,
            is_jdk,
        }
    }
}

/// The archive name with its recognized suffix removed; the `.zip` form
/// is preferred, as in the extraction itself.
pub open spec fn spec_archive_stem(name: Seq<char>) -> Seq<char>
    recommends
        spec_ends_with(name, ".zip"@) || spec_ends_with(name, ".tar.gz"@),
{
    if spec_ends_with(name, ".zip"@) {
        name.subrange(0, name.len() - 4)
    } else {
        name.subrange(0, name.len() - 7)
    }
}

impl JvmProvisioner for AdoptiumProvisioner {
    fn name(&self) -> &'static str {
        "Adoptium/Eclipse Temurin"
    }

    fn provision(&self, env: &dyn ProvisionEnv, base_dir: &str, request: &ProvisionRequest) -> (r:
        Result<ProvisionResult, ProvisionError>)
        ensures
            r matches Result::Ok(p) ==> p.version == request.version && p.known_vendor
                == Option::Some(Vendor::Temurin) && p.vendor@ == "Temurin"@,
    {
        let os = match env.os() {
            Option::Some(o) => o,
            Option::None => {
                return Result::Err(
                    ProvisionError::NotFound(
                        String::from_str("No compatible releases found for the given request."),
                    ),
                );
            },
        };
        let arch = match env.arch() {
            Option::Some(a) => a,
            Option::None => {
                return Result::Err(
                    ProvisionError::NotFound(
                        String::from_str("No compatible releases found for the given request."),
                    ),
                );
            },
        };
        let selected = match Self::select_compatible(env, &os, &arch, request) {
            Option::Some(s) => s,
            Option::None => {
                return Result::Err(
                    ProvisionError::NotFound(
                        String::from_str("No compatible releases found for the given request."),
                    ),
                );
            },
        };
        let archive_path = path_join(base_dir, selected.name.as_str());
        match Self::download_binary(env, archive_path.as_str(), &selected) {
            Result::Ok(()) => {},
            Result::Err(e) => {
                return Result::Err(e);
            },
        }
        let install_dir = match Self::extract(env, base_dir, selected.name.as_str()) {
            Result::Ok(d) => d,
            Result::Err(e) => {
                return Result::Err(e);
            },
        };
        if !env.remove_file(archive_path.as_str()) {
            return Result::Err(
                ProvisionError::Io(String::from_str("the downloaded archive could not be removed")),
            );
        }
        Result::Ok(Self::provision_result(request, selected, install_dir))
    }
}

} // verus!
