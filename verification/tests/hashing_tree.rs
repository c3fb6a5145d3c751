use jvm_utils::hashing::{hash_directory, sha256_hex, FsTree};

fn file(bytes: &[u8]) -> FsTree {
    FsTree::File { bytes: bytes.to_vec() }
}

fn dir(entries: Vec<(&str, FsTree)>) -> FsTree {
    FsTree::Dir {
        entries: entries.into_iter().map(|(n, t)| (String::from(n), t)).collect(),
    }
}

#[test]
fn hashing_is_deterministic() {
    let t1 = dir(vec![("a.txt", file(b"hello")), ("b.txt", file(b"world"))]);
    let t2 = dir(vec![("a.txt", file(b"hello")), ("b.txt", file(b"world"))]);
    assert_eq!(hash_directory(&t1), hash_directory(&t2));
}

#[test]
fn entry_order_does_not_matter() {
    let t1 = dir(vec![("a.txt", file(b"hello")), ("b.txt", file(b"world"))]);
    let t2 = dir(vec![("b.txt", file(b"world")), ("a.txt", file(b"hello"))]);
    assert_eq!(hash_directory(&t1), hash_directory(&t2));
}

#[test]
fn different_content_changes_the_hash() {
    let t1 = dir(vec![("a.txt", file(b"hello"))]);
    let t2 = dir(vec![("a.txt", file(b"hellp"))]);
    assert_ne!(hash_directory(&t1), hash_directory(&t2));
}

#[test]
fn the_length_prefix_separates_file_boundaries() {
    // Concatenated contents agree, but the split differs: the per-file
    // length prefix must keep the hashes apart.
    let t1 = dir(vec![("a", file(b"ab")), ("b", file(b"c"))]);
    let t2 = dir(vec![("a", file(b"a")), ("b", file(b"bc"))]);
    assert_ne!(hash_directory(&t1), hash_directory(&t2));
}

#[test]
fn nested_directories_are_sorted_recursively() {
    let t1 = dir(vec![
        ("sub", dir(vec![("x", file(b"1")), ("y", file(b"2"))])),
        ("top", file(b"t")),
    ]);
    let t2 = dir(vec![
        ("top", file(b"t")),
        ("sub", dir(vec![("y", file(b"2")), ("x", file(b"1"))])),
    ]);
    assert_eq!(hash_directory(&t1), hash_directory(&t2));
}

#[test]
fn the_hash_is_128_hex_characters() {
    let h = hash_directory(&dir(vec![("a", file(b"x"))]));
    assert_eq!(h.len(), 128);
    assert!(h.chars().all(|c| c.is_ascii_hexdigit() && !c.is_ascii_uppercase()));
}

#[test]
fn sha256_matches_the_published_test_vector() {
    let h = sha256_hex(&b"abc".to_vec());
    assert_eq!(h, "ba7816bf8f01cfea414140de5dae2223b00361a396177a9cb410ff61f20015ad");
    let empty = sha256_hex(&Vec::new());
    assert_eq!(empty, "e3b0c44298fc1c149afbf4c8996fb92427ae41e4649b934ca495991b7852b855");
}
