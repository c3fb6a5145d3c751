use jvm_utils::host::ScanEnv;
use jvm_utils::install::{Architecture, JavaInstall, JavaVersion, Vendor, OS};
use jvm_utils::locator::{add_install, find_add_install, JavaLocator, LocatorBuilder};

/// An in-memory host: directories, files, and canned probe answers.
struct FakeFs {
    os: OS,
    home: Option<String>,
    dirs: Vec<String>,
    files: Vec<String>,
    probes: Vec<(String, String)>,
}

impl FakeFs {
    fn new(os: OS) -> FakeFs {
        FakeFs {
            os,
            home: Some(String::from("/home/tester")),
            dirs: Vec::new(),
            files: Vec::new(),
            probes: Vec::new(),
        }
    }

    fn with_dir(mut self, d: &str) -> FakeFs {
        self.dirs.push(String::from(d));
        self
    }

    fn with_file(mut self, f: &str) -> FakeFs {
        self.files.push(String::from(f));
        self
    }

    fn with_probe(mut self, exe: &str, out: &str) -> FakeFs {
        self.probes.push((String::from(exe), String::from(out)));
        self
    }
}

impl ScanEnv for FakeFs {
    fn os(&self) -> Option<OS> {
        Some(self.os)
    }

    fn arch(&self) -> Option<Architecture> {
        Some(Architecture::X86_64)
    }

    fn home_dir(&self) -> Option<String> {
        self.home.clone()
    }

    fn dir_exists(&self, path: &str) -> bool {
        self.dirs.iter().any(|d| d == path)
    }

    fn file_exists(&self, path: &str) -> bool {
        self.files.iter().any(|f| f == path)
    }

    fn list_dir(&self, path: &str) -> Vec<String> {
        let prefix = format!("{}/", path.trim_end_matches('/'));
        let mut out: Vec<String> = Vec::new();
        for cand in self.dirs.iter().chain(self.files.iter()) {
            if let Some(rest) = cand.strip_prefix(&prefix) {
                if !rest.is_empty() && !rest.contains('/') {
                    out.push(cand.clone());
                }
            }
        }
        out
    }

    fn run_probe(&self, executable: &str, _props: &Vec<String>) -> Option<String> {
        self.probes
            .iter()
            .find(|(exe, _)| exe == executable)
            .map(|(_, out)| out.clone())
    }

    fn registry_sub_keys(&self, _key: &str) -> Vec<String> {
        Vec::new()
    }

    fn registry_value(&self, _key: &str, _name: &str) -> Option<String> {
        None
    }
}

fn probe_output(home: &str, version: &str, vendor: &str, arch: &str) -> String {
    format!(
        "java.home={}\njava.version={}\njava.vendor={}\nos.arch={}\njava.vm.name=OpenJDK 64-Bit Server VM\njava.vm.version={}\njava.runtime.name=OpenJDK Runtime Environment\njava.runtime.version={}\n",
        home, version, vendor, arch, version, version
    )
}

fn single_install_env() -> FakeFs {
    let home = "/usr/lib/jvm/temurin-17";
    FakeFs::new(OS::Linux)
        .with_dir("/usr/lib/jvm")
        .with_dir(home)
        .with_file(&format!("{}/bin/java", home))
        .with_file(&format!("{}/bin/javac", home))
        .with_probe(
            &format!("{}/bin/java", home),
            &probe_output(home, "17.0.10", "Eclipse Adoptium", "amd64"),
        )
}

#[test]
fn locate_single_install() {
    let env = single_install_env();
    let mut builder = LocatorBuilder::new();
    builder.with_platform_locator();
    let found = builder.locate(&env);
    assert_eq!(found.len(), 1);
    let inst = &found[0];
    assert_eq!(inst.lang_version, JavaVersion::Java17);
    assert_eq!(inst.known_vendor, Some(Vendor::Temurin));
    assert_eq!(inst.java_home, "/usr/lib/jvm/temurin-17");
    assert_eq!(inst.architecture, Architecture::X86_64);
    assert!(inst.is_jdk);
    // The probed executable really exists on the (fake) filesystem.
    let exe = JavaInstall::get_java_executable(
        &JavaInstall::get_home_dir(&inst.java_home, OS::Linux),
        false,
        OS::Linux,
    );
    assert!(env.file_exists(&exe));
}

#[test]
fn locate_is_pure_given_an_unchanged_filesystem() {
    let env = single_install_env();
    let mut builder = LocatorBuilder::new();
    builder.with_platform_locator();
    let a = builder.locate(&env);
    let b = builder.locate(&env);
    assert_eq!(a.len(), b.len());
    for (x, y) in a.iter().zip(b.iter()) {
        assert_eq!(x.java_home, y.java_home);
        assert_eq!(x.lang_version, y.lang_version);
        assert_eq!(x.is_jdk, y.is_jdk);
    }
}

fn jdk_and_jre_env() -> FakeFs {
    let jdk = "/usr/lib/jvm/jdk-17";
    let jre = "/usr/lib/jvm/jre-17";
    FakeFs::new(OS::Linux)
        .with_dir("/usr/lib/jvm")
        .with_dir(jdk)
        .with_dir(jre)
        .with_file(&format!("{}/bin/java", jdk))
        .with_file(&format!("{}/bin/javac", jdk))
        .with_file(&format!("{}/bin/java", jre))
        .with_probe(
            &format!("{}/bin/java", jdk),
            &probe_output(jdk, "17.0.2", "Eclipse Adoptium", "amd64"),
        )
        .with_probe(
            &format!("{}/bin/java", jre),
            &probe_output(jre, "17.0.2", "Eclipse Adoptium", "amd64"),
        )
}

#[test]
fn jdk_only_filters_out_the_jre() {
    let env = jdk_and_jre_env();
    let mut builder = LocatorBuilder::new();
    builder.with_platform_locator();
    builder.jdk_only();
    let found = builder.locate(&env);
    assert_eq!(found.len(), 1);
    assert_eq!(found[0].java_home, "/usr/lib/jvm/jdk-17");
    assert!(found[0].is_jdk);
}

#[test]
fn version_filter_keeps_only_matching_majors() {
    let env = jdk_and_jre_env();
    let mut builder = LocatorBuilder::new();
    builder.with_platform_locator();
    builder.filter(&JavaVersion::Java11);
    assert_eq!(builder.locate(&env).len(), 0);
    let mut builder17 = LocatorBuilder::new();
    builder17.with_platform_locator();
    builder17.filter(&JavaVersion::Java17);
    assert_eq!(builder17.locate(&env).len(), 2);
}

/// A source that reports the same install twice, plus everything the
/// platform locator already found.
struct EchoTwice {
    home: String,
}

impl JavaLocator for EchoTwice {
    fn locate(&self, env: &dyn ScanEnv) -> Option<Vec<JavaInstall>> {
        let mut vec: Vec<JavaInstall> = Vec::new();
        find_add_install(env, &mut vec, &self.home, OS::Linux);
        find_add_install(env, &mut vec, &self.home, OS::Linux);
        Some(vec)
    }
}

#[test]
fn locate_never_returns_two_entries_with_equal_home() {
    let env = single_install_env();
    let mut builder = LocatorBuilder::new();
    builder.with_platform_locator();
    builder.with_locator(Box::new(EchoTwice { home: String::from("/usr/lib/jvm/temurin-17") }));
    builder.with_locator(Box::new(EchoTwice { home: String::from("/usr/lib/jvm/temurin-17") }));
    let found = builder.locate(&env);
    assert_eq!(found.len(), 1);
}

#[test]
fn find_add_install_on_missing_directory_returns_none_without_error() {
    let env = FakeFs::new(OS::Linux);
    let mut vec: Vec<JavaInstall> = Vec::new();
    let r = find_add_install(&env, &mut vec, "/nonexistent/place", OS::Linux);
    assert!(r.is_none());
    assert_eq!(vec.len(), 0);
}

#[test]
fn add_install_keeps_the_first_occurrence() {
    let env = single_install_env();
    let mut vec: Vec<JavaInstall> = Vec::new();
    find_add_install(&env, &mut vec, "/usr/lib/jvm/temurin-17", OS::Linux);
    assert_eq!(vec.len(), 1);
    let dup = vec[0].clone();
    add_install(&mut vec, Some(dup));
    assert_eq!(vec.len(), 1);
}

#[test]
fn nested_jre_home_is_normalized_to_the_jdk_root() {
    // The runtime reports a home ending in `jre` whose parent carries a
    // `bin` directory: the install is folded onto the JDK root.
    let jdk = "/usr/lib/jvm/jdk-8";
    let jre_home = "/usr/lib/jvm/jdk-8/jre";
    let env = FakeFs::new(OS::Linux)
        .with_dir("/usr/lib/jvm")
        .with_dir(jdk)
        .with_dir(&format!("{}/bin", jdk))
        .with_dir(jre_home)
        .with_file(&format!("{}/bin/java", jdk))
        .with_file(&format!("{}/bin/javac", jdk))
        .with_probe(
            &format!("{}/bin/java", jdk),
            &probe_output(jre_home, "1.8.0_382", "Oracle Corporation", "amd64"),
        );
    let mut vec: Vec<JavaInstall> = Vec::new();
    find_add_install(&env, &mut vec, jdk, OS::Linux);
    assert_eq!(vec.len(), 1);
    assert_eq!(vec[0].java_home, jdk);
    assert_eq!(vec[0].lang_version, JavaVersion::Java1_8);
    assert_eq!(vec[0].known_vendor, Some(Vendor::OpenJdk));
}

#[test]
fn scan_folder_probes_one_level_of_wrapping() {
    // The install hides inside a release-named wrapper directory.
    let outer = "/opt/jdks/release-17";
    let inner = "/opt/jdks/release-17/jdk-17.0.2+8";
    let env = FakeFs::new(OS::Linux)
        .with_dir("/opt/jdks")
        .with_dir(outer)
        .with_dir(inner)
        .with_file(&format!("{}/bin/java", inner))
        .with_probe(
            &format!("{}/bin/java", inner),
            &probe_output(inner, "17.0.2", "Eclipse Adoptium", "amd64"),
        );
    let mut builder = LocatorBuilder::new();
    builder.with_platform_locator();
    let found = builder.locate(&env);
    assert_eq!(found.len(), 1);
    assert_eq!(found[0].java_home, inner);
}

#[test]
fn openj9_runtimes_can_be_ignored() {
    let home = "/usr/lib/jvm/openj9-11";
    let out = format!(
        "java.home={}\njava.version=11.0.1\njava.vendor=Eclipse OpenJ9\nos.arch=amd64\njava.vm.name=Eclipse OpenJ9 VM (j9)\njava.vm.version=11\njava.runtime.name=whatever\njava.runtime.version=11.0.1\n",
        home
    );
    let env = FakeFs::new(OS::Linux)
        .with_dir("/usr/lib/jvm")
        .with_dir(home)
        .with_file(&format!("{}/bin/java", home))
        .with_probe(&format!("{}/bin/java", home), &out);
    let mut plain = LocatorBuilder::new();
    plain.with_platform_locator();
    assert_eq!(plain.locate(&env).len(), 1);
    let mut strict = LocatorBuilder::new();
    strict.with_platform_locator();
    strict.ignore_openj9();
    assert_eq!(strict.locate(&env).len(), 0);
}

#[test]
fn gradle_and_intellij_locators_need_a_home_directory() {
    let mut env = FakeFs::new(OS::Linux);
    env.home = None;
    let mut builder = LocatorBuilder::new();
    builder.with_gradle_locator();
    builder.with_intellij_locator();
    assert_eq!(builder.locate(&env).len(), 0);
}

#[test]
fn gradle_locator_scans_the_toolchain_directory() {
    let home = "/home/dev";
    let install = "/home/dev/.gradle/jdks/temurin-21";
    let mut env = FakeFs::new(OS::Linux)
        .with_dir("/home/dev/.gradle/jdks")
        .with_dir(install)
        .with_file(&format!("{}/bin/java", install))
        .with_probe(
            &format!("{}/bin/java", install),
            &probe_output(install, "21.0.1", "Eclipse Adoptium", "amd64"),
        );
    env.home = Some(String::from(home));
    let mut builder = LocatorBuilder::new();
    builder.with_gradle_locator();
    let found = builder.locate(&env);
    assert_eq!(found.len(), 1);
    assert_eq!(found[0].lang_version, JavaVersion::Java21);
}

#[test]
fn extract_properties_splits_lines_at_the_first_equals() {
    let pairs = jvm_utils::extract::parse_properties_output(
        "a=1\n\nnot a pair\nb=x=y\r\nc=\n",
    );
    assert_eq!(pairs.len(), 3);
    assert_eq!(pairs[0], (String::from("a"), String::from("1")));
    assert_eq!(pairs[1], (String::from("b"), String::from("x=y")));
    assert_eq!(pairs[2], (String::from("c"), String::from("")));
}

#[test]
fn a_repeated_property_keeps_its_later_value() {
    let pairs = jvm_utils::extract::parse_properties_output("k=1\nother=x\nk=2\n");
    assert_eq!(jvm_utils::extract::prop_get(&pairs, "k"), Some(String::from("2")));
    assert_eq!(jvm_utils::extract::prop_get(&pairs, "other"), Some(String::from("x")));
    assert_eq!(jvm_utils::extract::prop_get(&pairs, "absent"), None);
}

#[test]
fn a_builder_with_no_sources_locates_nothing() {
    let env = single_install_env();
    let builder = LocatorBuilder::new();
    assert_eq!(builder.locate(&env).len(), 0);
}
