use jvm_utils::install::{Architecture, JavaVersion, Vendor};
use jvm_utils::manifest::{is_valid_id, manifest_from_json, manifest_to_json, Manifest};

fn sample_manifest() -> Manifest {
    Manifest {
        id: String::from("ab12CD"),
        version: JavaVersion::Java17,
        known_vendor: Some(Vendor::Temurin),
        vendor: String::from("Temurin"),
        semver: String::from("17.0.10+7"),
        architecture: Architecture::X86_64,
        install_dir: String::from("OpenJDK17U-jre_x64_linux/jdk-17.0.10+7-jre"),
        is_jdk: false,
        hash: String::from("0f".repeat(64)),
    }
}

fn assert_same(a: &Manifest, b: &Manifest) {
    assert_eq!(a.id, b.id);
    assert_eq!(a.version, b.version);
    assert_eq!(a.known_vendor, b.known_vendor);
    assert_eq!(a.vendor, b.vendor);
    assert_eq!(a.semver, b.semver);
    assert_eq!(a.architecture, b.architecture);
    assert_eq!(a.install_dir, b.install_dir);
    assert_eq!(a.is_jdk, b.is_jdk);
    assert_eq!(a.hash, b.hash);
}

#[test]
fn serialize_then_deserialize_round_trips() {
    let m = sample_manifest();
    let text = manifest_to_json(&m);
    let back = manifest_from_json(&text).expect("the emitted manifest must parse");
    assert_same(&m, &back);
}

#[test]
fn round_trip_with_characters_that_need_escaping() {
    let mut m = sample_manifest();
    m.vendor = String::from("weird \"vendor\" \\ with\nnewline\tand\u{1}control");
    m.install_dir = String::from("dir with spaces/and \"quotes\"");
    let text = manifest_to_json(&m);
    let back = manifest_from_json(&text).expect("escaped fields must survive");
    assert_same(&m, &back);
}

#[test]
fn round_trip_without_a_known_vendor() {
    let mut m = sample_manifest();
    m.known_vendor = None;
    m.is_jdk = true;
    m.version = JavaVersion::Java1_8;
    m.architecture = Architecture::Aarch64;
    let text = manifest_to_json(&m);
    assert!(text.contains("\"known_vendor\": null"));
    let back = manifest_from_json(&text).expect("a null vendor must survive");
    assert_same(&m, &back);
}

#[test]
fn emitted_form_is_the_documented_layout() {
    let m = sample_manifest();
    let text = manifest_to_json(&m);
    let expected = "{\n  \"id\": \"ab12CD\",\n  \"version\": 17,\n  \"known_vendor\": \"Temurin\",\n  \"vendor\": \"Temurin\",\n  \"semver\": \"17.0.10+7\",\n  \"architecture\": \"X86_64\",\n  \"install_dir\": \"OpenJDK17U-jre_x64_linux/jdk-17.0.10+7-jre\",\n  \"is_jdk\": false,\n";
    assert!(text.starts_with(expected));
    assert!(text.ends_with("\n}"));
}

#[test]
fn garbage_is_rejected() {
    assert!(manifest_from_json("").is_none());
    assert!(manifest_from_json("{}").is_none());
    assert!(manifest_from_json("not json at all").is_none());
    assert!(manifest_from_json("{\"id\": \"abc\"}").is_none());
}

#[test]
fn a_bad_version_number_is_rejected() {
    let m = sample_manifest();
    let text = manifest_to_json(&m).replace("\"version\": 17", "\"version\": 99");
    assert!(manifest_from_json(&text).is_none());
}

#[test]
fn trailing_text_is_rejected() {
    let m = sample_manifest();
    let mut text = manifest_to_json(&m);
    text.push_str("extra");
    assert!(manifest_from_json(&text).is_none());
}

#[test]
fn whitespace_variations_are_accepted() {
    let m = sample_manifest();
    let text = manifest_to_json(&m).replace(": ", ":\t").replace(",\n  ", " ,\n\n   ");
    let back = manifest_from_json(&text).expect("whitespace must not matter");
    assert_same(&m, &back);
}

#[test]
fn id_validity() {
    assert!(is_valid_id("ab12CD"));
    assert!(is_valid_id("000000"));
    assert!(!is_valid_id("abc"));
    assert!(!is_valid_id("abcdefg"));
    assert!(!is_valid_id("ab-12c"));
    assert!(!is_valid_id(""));
}
