use jvm_utils::install::{Architecture, JavaInstall, JavaVersion, Vendor, OS};

#[test]
fn parse_legacy_version_string() {
    assert_eq!(JavaVersion::parse("1.8.0_382"), Some(JavaVersion::Java1_8));
}

#[test]
fn parse_bare_major_version() {
    assert_eq!(JavaVersion::parse("17"), Some(JavaVersion::Java17));
}

#[test]
fn parse_versioned_build_string() {
    assert_eq!(JavaVersion::parse("17.0.10+7"), Some(JavaVersion::Java17));
}

#[test]
fn parse_empty_version_fails() {
    assert_eq!(JavaVersion::parse(""), None);
}

#[test]
fn parse_textual_version_fails() {
    assert_eq!(JavaVersion::parse("not a version"), None);
}

#[test]
fn parse_out_of_range_version_fails() {
    assert_eq!(JavaVersion::parse("99"), None);
    assert_eq!(JavaVersion::parse("0"), None);
}

#[test]
fn parse_one_dot_one() {
    assert_eq!(JavaVersion::parse("1.1"), Some(JavaVersion::Java1_1));
}

#[test]
fn version_parse_is_idempotent_on_string_form() {
    for n in 1..=40u64 {
        let v = JavaVersion::from_number(n).unwrap();
        let s = v.short_string();
        assert_eq!(JavaVersion::parse(&s), Some(v));
    }
}

#[test]
fn version_number_round_trip() {
    for n in 1..=40u64 {
        let v = JavaVersion::from_number(n).unwrap();
        assert_eq!(v.number(), n);
    }
    assert_eq!(JavaVersion::from_number(0), None);
    assert_eq!(JavaVersion::from_number(41), None);
}

#[test]
fn architecture_aliases_parse() {
    assert_eq!(Architecture::parse("x86"), Some(Architecture::X86));
    assert_eq!(Architecture::parse("i386"), Some(Architecture::X86));
    assert_eq!(Architecture::parse("x86_64"), Some(Architecture::X86_64));
    assert_eq!(Architecture::parse("x64"), Some(Architecture::X86_64));
    assert_eq!(Architecture::parse("amd64"), Some(Architecture::X86_64));
    assert_eq!(Architecture::parse("arm"), Some(Architecture::Arm));
    assert_eq!(Architecture::parse("aarch64"), Some(Architecture::Aarch64));
    assert_eq!(Architecture::parse("powerpc"), Some(Architecture::Powerpc));
    assert_eq!(Architecture::parse("ppc"), Some(Architecture::Powerpc));
    assert_eq!(Architecture::parse("powerpc64"), Some(Architecture::Powerpc64));
    assert_eq!(Architecture::parse("ppc64"), Some(Architecture::Powerpc64));
}

#[test]
fn architecture_parsing_is_case_sensitive_and_rejects_unknown() {
    assert_eq!(Architecture::parse("X86"), None);
    assert_eq!(Architecture::parse("AMD64"), None);
    assert_eq!(Architecture::parse("sparc"), None);
    assert_eq!(Architecture::parse(""), None);
}

#[test]
fn vendor_substring_matching() {
    assert_eq!(Vendor::parse("Eclipse Adoptium"), Some(Vendor::Temurin));
    assert_eq!(Vendor::parse("Temurin"), Some(Vendor::Temurin));
    assert_eq!(Vendor::parse("Amazon.com Inc."), Some(Vendor::Corretto));
    assert_eq!(Vendor::parse("AdoptOpenJDK"), Some(Vendor::AdoptOpenJdk));
    assert_eq!(Vendor::parse("GraalVM Community"), Some(Vendor::GraalVmCe));
    assert_eq!(Vendor::parse("JetBrains s.r.o."), Some(Vendor::Jetbrains));
    assert_eq!(Vendor::parse("Microsoft"), Some(Vendor::Microsoft));
    assert_eq!(Vendor::parse("Oracle Corporation"), Some(Vendor::OpenJdk));
    assert_eq!(Vendor::parse("Sun Microsystems Inc"), Some(Vendor::OpenJdk));
    assert_eq!(Vendor::parse("Azul Systems, Inc."), Some(Vendor::Zulu));
    assert_eq!(Vendor::parse("Nobody Knows This Vendor"), None);
}

#[test]
fn home_dir_is_offset_on_macos_only() {
    assert_eq!(JavaInstall::get_home_dir("/opt/jdk-17", OS::Linux), "/opt/jdk-17");
    assert_eq!(
        JavaInstall::get_home_dir("/Library/Java/JavaVirtualMachines/t17", OS::MacOS),
        "/Library/Java/JavaVirtualMachines/t17/Contents/Home"
    );
    assert_eq!(JavaInstall::get_home_dir("C:/Java/jdk", OS::Windows), "C:/Java/jdk");
}

#[test]
fn bin_dir_joins_home_and_bin() {
    assert_eq!(JavaInstall::get_bin_dir("/usr/lib/jvm/temurin-17", OS::Linux), "/usr/lib/jvm/temurin-17/bin");
}

#[test]
fn executable_names_take_the_platform_extension() {
    assert_eq!(JavaInstall::get_executable("/opt/j", "javac", OS::Linux), "/opt/j/bin/javac");
    assert_eq!(JavaInstall::get_executable("C:/j", "javac", OS::Windows), "C:/j/bin/javac.exe");
}

#[test]
fn java_executable_prefers_javaw_on_windows() {
    assert_eq!(JavaInstall::get_java_executable("C:/j", true, OS::Windows), "C:/j/bin/javaw.exe");
    assert_eq!(JavaInstall::get_java_executable("C:/j", false, OS::Windows), "C:/j/bin/java.exe");
    assert_eq!(JavaInstall::get_java_executable("/opt/j", true, OS::Linux), "/opt/j/bin/java");
}

#[test]
fn path_file_name_and_parent() {
    assert_eq!(jvm_utils::install::path_file_name("/usr/lib/jvm/jdk-8/jre"), "jre");
    assert_eq!(
        jvm_utils::install::path_parent_dir("/usr/lib/jvm/jdk-8/jre"),
        Some(String::from("/usr/lib/jvm/jdk-8"))
    );
    assert_eq!(jvm_utils::install::path_parent_dir("jre"), None);
}
