use std::cell::RefCell;
use std::collections::HashMap;

use jvm_utils::hashing::{sha256_hex, FsTree};
use jvm_utils::install::{Architecture, JavaVersion, Vendor, OS};
use jvm_utils::manifest::manifest_from_json;
use jvm_utils::provisioning::adoptium::{
    AdoptiumProvisioner, ArchiveKind, Binary, Package, Release,
};
use jvm_utils::provisioning::{
    adoptium, InstallationManager, ProvisionEnv, ProvisionError, ProvisionRequest,
};

const ARCHIVE: &str = "OpenJDK17U-jre_x64_linux_hotspot_17.0.10_7.tar.gz";
const STEM: &str = "OpenJDK17U-jre_x64_linux_hotspot_17.0.10_7";
const INNER: &str = "jdk-17.0.10+7-jre";

#[derive(Default)]
struct Counters {
    fetches: usize,
    downloads: usize,
    writes: Vec<(String, String)>,
    removed: Vec<String>,
    downloaded_to: Vec<String>,
    listings: HashMap<String, Vec<String>>,
    texts: HashMap<String, String>,
}

struct FakeProv {
    os: OS,
    arch: Architecture,
    catalog: HashMap<String, Vec<(String, String, i64, String)>>,
    archive_bytes: Vec<u8>,
    state: RefCell<Counters>,
}

impl FakeProv {
    fn new(os: OS, arch: Architecture) -> FakeProv {
        FakeProv {
            os,
            arch,
            catalog: HashMap::new(),
            archive_bytes: Vec::new(),
            state: RefCell::new(Counters::default()),
        }
    }
}

impl ProvisionEnv for FakeProv {
    fn os(&self) -> Option<OS> {
        Some(self.os)
    }

    fn arch(&self) -> Option<Architecture> {
        Some(self.arch)
    }

    fn ensure_dir(&self, _path: &str) -> bool {
        true
    }

    fn canonicalize_dir(&self, path: &str) -> Option<String> {
        Some(String::from(path))
    }

    fn list_dir(&self, path: &str) -> Vec<String> {
        self.state
            .borrow()
            .listings
            .get(path)
            .cloned()
            .unwrap_or_default()
    }

    fn read_text_file(&self, path: &str) -> Option<String> {
        self.state.borrow().texts.get(path).cloned()
    }

    fn write_text_file(&self, path: &str, content: &str) -> bool {
        let mut st = self.state.borrow_mut();
        st.writes.push((String::from(path), String::from(content)));
        st.texts.insert(String::from(path), String::from(content));
        true
    }

    fn read_file_bytes(&self, path: &str) -> Option<Vec<u8>> {
        if self.state.borrow().downloaded_to.iter().any(|p| p == path) {
            Some(self.archive_bytes.clone())
        } else {
            None
        }
    }

    fn read_tree(&self, _path: &str) -> Option<FsTree> {
        Some(FsTree::Dir {
            entries: vec![(
                String::from("release"),
                FsTree::File { bytes: b"java".to_vec() },
            )],
        })
    }

    fn remove_file(&self, path: &str) -> bool {
        self.state.borrow_mut().removed.push(String::from(path));
        true
    }

    fn fetch_releases(&self, url: &str) -> Option<Vec<Release>> {
        self.state.borrow_mut().fetches += 1;
        self.catalog.get(url).map(|pkgs| {
            pkgs.iter()
                .map(|(name, link, size, image_type)| Release {
                    openjdk_version: String::from("17.0.10+7"),
                    binaries: vec![Binary {
                        package: Some(Package {
                            name: name.clone(),
                            link: link.clone(),
                            size: *size,
                            checksum: sha256_hex(&self.archive_bytes),
                        }),
                        image_type: image_type.clone(),
                    }],
                })
                .collect()
        })
    }

    fn download(&self, _url: &str, dest: &str) -> bool {
        let mut st = self.state.borrow_mut();
        st.downloads += 1;
        st.downloaded_to.push(String::from(dest));
        true
    }

    fn unpack_archive(&self, _archive: &str, dest: &str, _kind: ArchiveKind) -> bool {
        let mut st = self.state.borrow_mut();
        st.listings
            .insert(String::from(dest), vec![format!("{}/{}", dest, INNER)]);
        true
    }
}

fn jre_env(base_jre_available: bool) -> FakeProv {
    let mut env = FakeProv::new(OS::Linux, Architecture::X86_64);
    env.archive_bytes = b"pretend this is a tar.gz archive".to_vec();
    let size = env.archive_bytes.len() as i64;
    if base_jre_available {
        let jre_url = AdoptiumProvisioner::url(
            &OS::Linux,
            &Architecture::X86_64,
            &JavaVersion::Java17,
            &None,
            true,
        );
        env.catalog.insert(
            jre_url,
            vec![(
                String::from(ARCHIVE),
                String::from("https://example.invalid/archive"),
                size,
                String::from("jre"),
            )],
        );
    }
    env
}

#[test]
fn provisioning_an_empty_cache_writes_one_manifest() {
    let env = jre_env(true);
    let mut manager = InstallationManager::new(&env, "/cache").expect("manager must start");
    manager.with_provisioner(adoptium());
    let mut request = ProvisionRequest::from_version(JavaVersion::Java17);
    request.with_jre_only(true);
    let path = manager.provide(&env, &request).expect("provisioning must succeed");
    assert_eq!(path, format!("/cache/{}/{}", STEM, INNER));

    let st = env.state.borrow();
    assert_eq!(st.writes.len(), 1);
    let (file, text) = &st.writes[0];
    assert!(file.starts_with("/cache/"));
    assert!(file.ends_with(".json"));
    let manifest = manifest_from_json(text).expect("the written manifest must parse");
    assert_eq!(manifest.id.len(), 6);
    assert!(manifest.id.chars().all(|c| c.is_ascii_alphanumeric()));
    assert_eq!(manifest.version, JavaVersion::Java17);
    assert_eq!(manifest.known_vendor, Some(Vendor::Temurin));
    assert_eq!(manifest.vendor, "Temurin");
    assert_eq!(manifest.semver, "17.0.10+7");
    assert_eq!(manifest.architecture, Architecture::X86_64);
    assert_eq!(manifest.install_dir, format!("{}/{}", STEM, INNER));
    assert!(!manifest.is_jdk);
    assert_eq!(manifest.hash.len(), 128);
    // The downloaded archive was deleted after extraction.
    assert!(st.removed.contains(&format!("/cache/{}", ARCHIVE)));
}

#[test]
fn the_same_request_again_is_served_from_the_cache() {
    let env = jre_env(true);
    let mut manager = InstallationManager::new(&env, "/cache").expect("manager must start");
    manager.with_provisioner(adoptium());
    let mut request = ProvisionRequest::from_version(JavaVersion::Java17);
    request.with_jre_only(true);
    let first = manager.provide(&env, &request).expect("first request");
    let (fetches, downloads) = {
        let st = env.state.borrow();
        (st.fetches, st.downloads)
    };
    let mut request2 = ProvisionRequest::from_version(JavaVersion::Java17);
    request2.with_jre_only(true);
    let second = manager.provide(&env, &request2).expect("second request");
    assert_eq!(first, second);
    let st = env.state.borrow();
    assert_eq!(st.fetches, fetches, "no catalog traffic on the second request");
    assert_eq!(st.downloads, downloads, "no download on the second request");
    assert_eq!(st.writes.len(), 1, "no second manifest");
}

#[test]
fn a_length_mismatch_is_an_integrity_error_and_no_manifest_is_written() {
    let mut env = jre_env(true);
    // Publish a wrong size: the downloaded file will not match it.
    for pkgs in env.catalog.values_mut() {
        for pkg in pkgs.iter_mut() {
            pkg.2 += 1;
        }
    }
    let provisioner = AdoptiumProvisioner::new();
    let request = {
        let mut r = ProvisionRequest::from_version(JavaVersion::Java17);
        r.with_jre_only(true);
        r
    };
    let outcome = jvm_utils::provisioning::JvmProvisioner::provision(
        &provisioner,
        &env,
        "/cache",
        &request,
    );
    match outcome {
        Err(ProvisionError::Integrity(_)) => {},
        other => panic!("expected an integrity error, got {:?}", other),
    }
    let st = env.state.borrow();
    assert_eq!(st.writes.len(), 0, "no manifest is written");
    // The archive stays behind for inspection or retry.
    assert!(st.removed.is_empty());
}

#[test]
fn every_provider_failing_is_a_not_found_error() {
    let env = jre_env(false);
    let mut manager = InstallationManager::new(&env, "/cache").expect("manager must start");
    manager.with_provisioner(adoptium());
    let request = ProvisionRequest::from_version(JavaVersion::Java17);
    match manager.provide(&env, &request) {
        Err(ProvisionError::NotFound(msg)) => {
            assert_eq!(msg, "No providers were able to fulfill the request.");
        },
        other => panic!("expected not-found, got {:?}", other),
    }
}

#[test]
fn aarch64_windows_with_substitution_falls_back_to_an_x64_jre() {
    let mut env = FakeProv::new(OS::Windows, Architecture::Aarch64);
    env.archive_bytes = b"zip bytes".to_vec();
    let size = env.archive_bytes.len() as i64;
    // Only the x86_64 JRE query has an answer.
    let x64_jre_url = AdoptiumProvisioner::url(
        &OS::Windows,
        &Architecture::X86_64,
        &JavaVersion::Java17,
        &None,
        true,
    );
    env.catalog.insert(
        x64_jre_url,
        vec![(
            String::from("OpenJDK17U-jre_x64_windows_hotspot_17.0.10_7.zip"),
            String::from("https://example.invalid/zip"),
            size,
            String::from("jre"),
        )],
    );
    let mut request = ProvisionRequest::from_version(JavaVersion::Java17);
    request.with_jre_only(true);
    request.with_x86_on_arm(true);
    let selected = AdoptiumProvisioner::select_compatible(
        &env,
        &OS::Windows,
        &Architecture::Aarch64,
        &request,
    )
    .expect("the x86_64 JRE must be selected");
    assert_eq!(selected.architecture, Architecture::X86_64);
    assert_eq!(selected.image_type, "jre");
    // Four queries were tried: aarch64 jre, aarch64 jdk, x64 jre (hit).
    assert_eq!(env.state.borrow().fetches, 3);
}

#[test]
fn the_catalog_url_is_built_exactly() {
    let url = AdoptiumProvisioner::url(
        &OS::Linux,
        &Architecture::X86_64,
        &JavaVersion::Java17,
        &None,
        true,
    );
    assert_eq!(
        url,
        "https://api.adoptium.net/v3/assets/feature_releases/17/ga?project=jdk&image_type=jre&vendor=eclipse&jvm_impl=hotspot&heap_size=normal&architecture=x64&os=linux"
    );
    let pinned = AdoptiumProvisioner::url(
        &OS::MacOS,
        &Architecture::Aarch64,
        &JavaVersion::Java21,
        &Some(String::from("21.0.1+12")),
        false,
    );
    assert_eq!(
        pinned,
        "https://api.adoptium.net/v3/assets/version/21.0.1+12?project=jdk&image_type=jdk&vendor=eclipse&jvm_impl=hotspot&heap_size=normal&architecture=aarch64&os=mac"
    );
}

#[test]
fn corrupt_manifests_on_disk_are_skipped() {
    let env = jre_env(true);
    {
        let mut st = env.state.borrow_mut();
        st.listings.insert(
            String::from("/cache"),
            vec![
                String::from("/cache/broken.json"),
                String::from("/cache/other.txt"),
            ],
        );
        st.texts.insert(
            String::from("/cache/broken.json"),
            String::from("this is not a manifest"),
        );
    }
    let manager = InstallationManager::new(&env, "/cache").expect("corrupt files never stop the manager");
    assert_eq!(manager.installs.len(), 0);
}

#[test]
fn request_builders_set_their_fields() {
    let r = ProvisionRequest::from_version(JavaVersion::Java11);
    assert_eq!(r.version, JavaVersion::Java11);
    assert!(r.semver.is_none());
    assert!(!r.jre_allowed);
    assert!(!r.x86_on_arm);

    let pinned = ProvisionRequest::from_semver(String::from("17.0.10+7")).unwrap();
    assert_eq!(pinned.version, JavaVersion::Java17);
    assert_eq!(pinned.semver.as_deref(), Some("17.0.10+7"));
    assert!(ProvisionRequest::from_semver(String::from("junk")).is_none());
}
