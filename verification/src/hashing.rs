//! Deterministic hashing of directory trees for cache integrity.
//!
//! A tree is modelled as [`FsTree`]: file contents and named directory
//! entries, read from disk by the caller. The hash streams, for every file
//! in sorted-entries traversal order, the file's length as 8 little-endian
//! bytes followed by its contents, and digests the stream with SHA-512.
//! The length prefix prevents boundary collisions between concatenated
//! files. The standalone SHA-256 helper matches the checksums vendors
//! publish for downloads.

use vstd::prelude::*;
use vstd::bytes::{spec_u64_to_le_bytes, u64_to_le_bytes};
use crate::text::{lex_lt, str_lex_lt};

use sha2::Digest;

verus! {

/// An in-memory picture of a file tree: what the directory hasher reads.
#[derive(Debug)]
pub enum FsTree {
    File { bytes: Vec<u8> },
    Dir { entries: Vec<(String, FsTree)> },
}

/// The mathematical shape of an [`FsTree`].
pub enum FsView {
    File { bytes: Seq<u8> },
    Dir { entries: Seq<(Seq<char>, FsView)> },
}

/// The view of a tree.
pub open spec fn tree_view(t: FsTree) -> FsView
    decreases t,
{
    match t {
        FsTree::File { bytes } => FsView::File { bytes: bytes@ },
        FsTree::Dir { entries } => FsView::Dir { entries: entries_view(entries@) },
    }
}

/// The views of a sequence of named entries.
pub open spec fn entries_view(es: Seq<(String, FsTree)>) -> Seq<(Seq<char>, FsView)>
    decreases es,
{
    if es.len() == 0 {
        Seq::empty()
    } else {
        seq![(es[0].0@, tree_view(es[0].1))] + entries_view(es.drop_first())
    }
}

/// `entries_view` maps the view over the elements, pointwise.
pub proof fn lemma_entries_view(es: Seq<(String, FsTree)>)
    ensures
        entries_view(es).len() == es.len(),
        forall|i: int|
            0 <= i < es.len() ==> #[trigger] entries_view(es)[i] == (
                es[i].0@,
                tree_view(es[i].1),
            ),
    decreases es.len(),
{
    if es.len() > 0 {
        lemma_entries_view(es.drop_first());
        assert forall|i: int| 0 <= i < es.len() implies #[trigger] entries_view(es)[i] == (
            es[i].0@,
            tree_view(es[i].1),
        ) by {
            if i > 0 {
                assert(entries_view(es)[i] == entries_view(es.drop_first())[i - 1]);
                assert(es.drop_first()[i - 1] == es[i]);
            }
        }
    }
}

/// Insert an entry into a name-sorted run, before the first entry whose
/// name is not lexicographically smaller.
pub open spec fn insert_entry(e: (Seq<char>, FsView), s: Seq<(Seq<char>, FsView)>) -> Seq<
    (Seq<char>, FsView),
>
    decreases s.len(),
{
    if s.len() == 0 {
        seq![e]
    } else if lex_lt(s[0].0, e.0) {
        seq![s[0]] + insert_entry(e, s.drop_first())
    } else {
        seq![e] + s
    }
}

/// Insertion sort of directory entries by name.
pub open spec fn sort_entries(s: Seq<(Seq<char>, FsView)>) -> Seq<(Seq<char>, FsView)>
    decreases s.len(),
{
    if s.len() == 0 {
        s
    } else {
        insert_entry(s[0], sort_entries(s.drop_first()))
    }
}

/// Each subtree brought into canonical form, names kept in place.
pub open spec fn canon_each(es: Seq<(Seq<char>, FsView)>) -> Seq<(Seq<char>, FsView)>
    decreases es,
{
    if es.len() == 0 {
        es
    } else {
        seq![(es[0].0, spec_canon(es[0].1))] + canon_each(es.drop_first())
    }
}

/// The canonical form of a tree: every directory's entries sorted by name,
/// recursively.
pub open spec fn spec_canon(v: FsView) -> FsView
    decreases v,
{
    match v {
        FsView::File { bytes } => FsView::File { bytes },
        FsView::Dir { entries } => FsView::Dir { entries: sort_entries(canon_each(entries)) },
    }
}

/// The byte stream fed to the digest: for a file, its length as 8
/// little-endian bytes followed by its contents; for a directory, the
/// streams of its entries in order. Entry names order the traversal but are
/// not themselves part of the stream.
pub open spec fn spec_encode(v: FsView) -> Seq<u8>
    decreases v,
{
    match v {
        FsView::File { bytes } => spec_u64_to_le_bytes(bytes.len() as u64) + bytes,
        FsView::Dir { entries } => encode_each(entries),
    }
}

/// The concatenated byte streams of a run of entries.
pub open spec fn encode_each(es: Seq<(Seq<char>, FsView)>) -> Seq<u8>
    decreases es,
{
    if es.len() == 0 {
        Seq::empty()
    } else {
        spec_encode(es[0].1) + encode_each(es.drop_first())
    }
}

/// Insert an owned entry into a run kept sorted by name.
fn insert_entry_exec(e: (String, FsTree), s: Vec<(String, FsTree)>) -> (r: Vec<(String, FsTree)>)
    ensures
        entries_view(r@) == insert_entry((e.0@, tree_view(e.1)), entries_view(s@)),
    decreases s@.len(),
{
    let ghost ev = (e.0@, tree_view(e.1));
    let ghost sv = entries_view(s@);
    proof {
        lemma_entries_view(s@);
    }
    let mut s = s;
    if s.len() == 0 {
        s.push(e);
        proof {
            lemma_entries_view(s@);
            assert(entries_view(s@) =~= seq![ev]);
        }
        s
    } else if str_lex_lt(s[0].0.as_str(), e.0.as_str()) {
        let ghost s0 = s@;
        let head = s.remove(0);
        proof {
            assert(s@ =~= s0.drop_first());
            assert(entries_view(s@) =~= sv.drop_first());
        }
        let mut r = insert_entry_exec(e, s);
        let ghost rv = r@;
        r.insert(0, head);
        proof {
            assert(r@.drop_first() =~= rv);
            assert(r@[0] == head);
            assert(entries_view(r@) == seq![(head.0@, tree_view(head.1))] + entries_view(rv));
            assert((head.0@, tree_view(head.1)) == sv[0]);
            assert(lex_lt(sv[0].0, ev.0));
            assert(entries_view(r@) == insert_entry(ev, sv));
        }
        r
    } else {
        s.insert(0, e);
        proof {
            lemma_entries_view(s@);
            lemma_entries_view(s@.drop_first());
            assert(s@.drop_first() =~= s@.subrange(1, s@.len() as int));
            assert(entries_view(s@.drop_first()) =~= sv);
            assert(entries_view(s@) =~= seq![ev] + sv);
        }
        s
    }
}

/// Insertion sort of owned entries by name.
fn sort_entries_exec(s: Vec<(String, FsTree)>) -> (r: Vec<(String, FsTree)>)
    ensures
        entries_view(r@) == sort_entries(entries_view(s@)),
    decreases s@.len(),
{
    let ghost sv = entries_view(s@);
    proof {
        lemma_entries_view(s@);
    }
    let mut s = s;
    if s.len() == 0 {
        proof {
            assert(entries_view(s@) =~= sort_entries(sv));
        }
        s
    } else {
        let head = s.remove(0);
        assert(entries_view(s@) =~= sv.drop_first()) by {
            lemma_entries_view(s@);
        }
        let rest = sort_entries_exec(s);
        insert_entry_exec(head, rest)
    }
}

/// A verified copy of a byte vector.
fn clone_bytes(v: &Vec<u8>) -> (r: Vec<u8>)
    ensures
        r@ == v@,
{
    let mut r: Vec<u8> = Vec::new();
    let mut i: usize = 0;
    while i < v.len()
        invariant
            i <= v@.len(),
            r@ == v@.subrange(0, i as int),
        decreases v@.len() - i,
    {
        r.push(v[i]);
        i = i + 1;
        assert(r@ =~= v@.subrange(0, i as int));
    }
    assert(r@ =~= v@);
    r
}

/// Bring a tree into canonical form: sort every directory's entries by
/// name, recursively.
pub fn canonicalize(t: &FsTree) -> (r: FsTree)
    ensures
        tree_view(r) == spec_canon(tree_view(*t)),
    decreases tree_view(*t),
{
    let ghost tv = tree_view(*t);
    match t {
        FsTree::File { bytes } => FsTree::File { bytes: clone_bytes(bytes) },
        FsTree::Dir { entries } => {
            let ghost orig = entries_view(entries@);
            let mut out: Vec<(String, FsTree)> = Vec::new();
            let mut i: usize = 0;
            proof {
                assert(entries_view(out@) =~= Seq::<(Seq<char>, FsView)>::empty());
                assert(orig.skip(0) =~= orig);
                lemma_entries_view(entries@);
            }
            while i < entries.len()
                invariant
                    tv == (FsView::Dir { entries: orig }),
                    tv == tree_view(*t),
                    orig == entries_view(entries@),
                    orig.len() == entries@.len(),
                    i <= entries@.len(),
                    canon_each(orig) == entries_view(out@) + canon_each(orig.skip(i as int)),
                decreases entries@.len() - i,
            {
                proof {
                    lemma_entries_view(entries@);
                    assert(orig.skip(i as int)[0] == orig[i as int]);
                    assert(decreases_to!(tv => tv->Dir_entries));
                    assert(tv->Dir_entries == orig);
                    assert(decreases_to!(orig => orig[i as int]));
                    assert(decreases_to!(orig[i as int] => orig[i as int].1));
                    assert(tree_view(entries@[i as int].1) == orig[i as int].1);
                }
                let name = entries[i].0.clone();
                let c = canonicalize(&entries[i].1);
                let ghost pre_out = out@;
                out.push((name, c));
                proof {
                    assert(entries_view(out@) =~= entries_view(pre_out).push(
                        (name@, tree_view(c)),
                    )) by {
                        lemma_entries_view(out@);
                        lemma_entries_view(pre_out);
                    }
                    assert((name@, spec_canon(tree_view(entries@[i as int].1))) == (
                        orig[i as int].0,
                        spec_canon(orig[i as int].1),
                    ));
                    assert(canon_each(orig.skip(i as int)) == seq![
                        (orig[i as int].0, spec_canon(orig[i as int].1)),
                    ] + canon_each(orig.skip(i as int).drop_first()));
                    assert(orig.skip(i as int).drop_first() =~= orig.skip(i + 1));
                    assert(canon_each(orig) =~= entries_view(out@) + canon_each(orig.skip(i + 1)));
                }
                i = i + 1;
            }
            proof {
                assert(orig.skip(i as int).len() == 0);
                assert(canon_each(orig.skip(i as int)) =~= Seq::<(Seq<char>, FsView)>::empty());
                assert(canon_each(orig) =~= entries_view(out@));
            }
            let sorted = sort_entries_exec(out);
            FsTree::Dir { entries: sorted }
        },
    }
}

/// Produce the byte stream of a tree, in the order its entries stand.
pub fn encode_tree(t: &FsTree) -> (out: Vec<u8>)
    ensures
        out@ == spec_encode(tree_view(*t)),
    decreases tree_view(*t),
{
    let ghost tv = tree_view(*t);
    match t {
        FsTree::File { bytes } => {
            let mut out = u64_to_le_bytes(bytes.len() as u64);
            let ghost prefix = out@;
            let mut i: usize = 0;
            while i < bytes.len()
                invariant
                    i <= bytes@.len(),
                    out@ == prefix + bytes@.subrange(0, i as int),
                decreases bytes@.len() - i,
            {
                out.push(bytes[i]);
                i = i + 1;
                assert(out@ =~= prefix + bytes@.subrange(0, i as int));
            }
            assert(out@ =~= prefix + bytes@);
            out
        },
        FsTree::Dir { entries } => {
            let ghost orig = entries_view(entries@);
            let mut out: Vec<u8> = Vec::new();
            let mut i: usize = 0;
            proof {
                assert(orig.skip(0) =~= orig);
                assert(out@ =~= Seq::<u8>::empty());
                lemma_entries_view(entries@);
            }
            while i < entries.len()
                invariant
                    tv == (FsView::Dir { entries: orig }),
                    tv == tree_view(*t),
                    orig == entries_view(entries@),
                    orig.len() == entries@.len(),
                    i <= entries@.len(),
                    out@ + encode_each(orig.skip(i as int)) == encode_each(orig),
                decreases entries@.len() - i,
            {
                proof {
                    lemma_entries_view(entries@);
                    assert(orig.skip(i as int)[0] == orig[i as int]);
                    assert(decreases_to!(tv => tv->Dir_entries));
                    assert(tv->Dir_entries == orig);
                    assert(decreases_to!(orig => orig[i as int]));
                    assert(decreases_to!(orig[i as int] => orig[i as int].1));
                    assert(tree_view(entries@[i as int].1) == orig[i as int].1);
                }
                let mut piece = encode_tree(&entries[i].1);
                let ghost pre_out = out@;
                out.append(&mut piece);
                proof {
                    assert(encode_each(orig.skip(i as int)) == spec_encode(orig[i as int].1)
                        + encode_each(orig.skip(i as int).drop_first()));
                    assert(orig.skip(i as int).drop_first() =~= orig.skip(i + 1));
                    assert(out@ + encode_each(orig.skip(i + 1)) =~= encode_each(orig));
                }
                i = i + 1;
            }
            proof {
                assert(orig.skip(i as int).len() == 0);
                assert(encode_each(orig.skip(i as int)) =~= Seq::<u8>::empty());
                assert(out@ =~= encode_each(orig));
            }
            out
        },
    }
}

/// The lower-case hexadecimal character for `d`.
pub open spec fn hex_digit_char(d: int) -> char
    recommends
        0 <= d <= 15,
{
    if d == 0 {
        '0'
    } else if d == 1 {
        '1'
    } else if d == 2 {
        '2'
    } else if d == 3 {
        '3'
    } else if d == 4 {
        '4'
    } else if d == 5 {
        '5'
    } else if d == 6 {
        '6'
    } else if d == 7 {
        '7'
    } else if d == 8 {
        '8'
    } else if d == 9 {
        '9'
    } else if d == 10 {
        'a'
    } else if d == 11 {
        'b'
    } else if d == 12 {
        'c'
    } else if d == 13 {
        'd'
    } else if d == 14 {
        'e'
    } else {
        'f'
    }
}

/// Lower-case hexadecimal rendering of a byte string, two digits per byte.
pub open spec fn hex_of(bytes: Seq<u8>) -> Seq<char>
    decreases bytes.len(),
{
    if bytes.len() == 0 {
        Seq::empty()
    } else {
        hex_of(bytes.drop_last()).push(hex_digit_char(bytes.last() as int / 16)).push(
            hex_digit_char(bytes.last() as int % 16),
        )
    }
}

/// The lower-case hexadecimal character for an executable digit.
pub fn hex_char(d: u8) -> (c: char)
    requires
        d < 16,
    ensures
        c == hex_digit_char(d as int),
{
    if d == 0 {
        '0'
    } else if d == 1 {
        '1'
    } else if d == 2 {
        '2'
    } else if d == 3 {
        '3'
    } else if d == 4 {
        '4'
    } else if d == 5 {
        '5'
    } else if d == 6 {
        '6'
    } else if d == 7 {
        '7'
    } else if d == 8 {
        '8'
    } else if d == 9 {
        '9'
    } else if d == 10 {
        'a'
    } else if d == 11 {
        'b'
    } else if d == 12 {
        'c'
    } else if d == 13 {
        'd'
    } else if d == 14 {
        'e'
    } else {
        'f'
    }
}

/// Render bytes as lower-case hexadecimal.
pub fn bytes_to_hex(bytes: &Vec<u8>) -> (s: String)
    ensures
        s@ == hex_of(bytes@),
{
    let mut out: Vec<char> = Vec::new();
    let mut i: usize = 0;
    assert(out@ =~= hex_of(bytes@.subrange(0, 0)));
    while i < bytes.len()
        invariant
            i <= bytes@.len(),
            out@ == hex_of(bytes@.subrange(0, i as int)),
        decreases bytes@.len() - i,
    {
        let b = bytes[i];
        out.push(hex_char(b / 16));
        out.push(hex_char(b % 16));
        i = i + 1;
        proof {
            let pre = bytes@.subrange(0, i - 1);
            let cur = bytes@.subrange(0, i as int);
            assert(cur.drop_last() =~= pre);
            assert(cur.last() == b);
            assert(out@ =~= hex_of(cur));
        }
    }
    assert(bytes@.subrange(0, bytes@.len() as int) =~= bytes@);
    crate::text::string_from_chars(&out)
}

/// The SHA-512 digest of a byte string, as 64 bytes. The digest is a pure
/// function of the input; its value is not modelled here.
pub uninterp spec fn sha512_of(data: Seq<u8>) -> Seq<u8>;

/// The SHA-256 digest of a byte string, as 32 bytes. The digest is a pure
/// function of the input; its value is not modelled here.
pub uninterp spec fn sha256_of(data: Seq<u8>) -> Seq<u8>;

/// Relies on `sha2::Sha512` through `Digest::digest`: the digest depends on
/// the input bytes alone and is 64 bytes long.
#[verifier::external_body]
fn sha512_bytes(data: &Vec<u8>) -> (d: Vec<u8>)
    ensures
        d@ == sha512_of(data@),
        d@.len() == 64,
{
    sha2::Sha512::digest(data.as_slice()).to_vec()
}

/// Relies on `sha2::Sha256` through `Digest::digest`: the digest depends on
/// the input bytes alone and is 32 bytes long.
#[verifier::external_body]
fn sha256_bytes(data: &Vec<u8>) -> (d: Vec<u8>)
    ensures
        d@ == sha256_of(data@),
        d@.len() == 32,
{
    sha2::Sha256::digest(data.as_slice()).to_vec()
}

/// The hash a directory tree is recorded under: the hex form of the
/// SHA-512 digest of the canonical traversal's byte stream.
pub open spec fn spec_dir_hash(v: FsView) -> Seq<char> {
    hex_of(sha512_of(spec_encode(spec_canon(v))))
}

/// Deterministic hash of a directory tree: sort every directory's entries,
/// stream file lengths and contents in traversal order, digest with
/// SHA-512, and render in hexadecimal.
pub fn hash_directory(t: &FsTree) -> (h: String)
    ensures
        h@ == spec_dir_hash(tree_view(*t)),
        h@.len() == 128,
{
    let c = canonicalize(t);
    let encoded = encode_tree(&c);
    let digest = sha512_bytes(&encoded);
    proof {
        lemma_hex_len(digest@);
    }
    bytes_to_hex(&digest)
}

/// Hex doubles the length of its input.
pub proof fn lemma_hex_len(bytes: Seq<u8>)
    ensures
        hex_of(bytes).len() == 2 * bytes.len(),
    decreases bytes.len(),
{
    if bytes.len() > 0 {
        lemma_hex_len(bytes.drop_last());
    }
}

/// The SHA-256 checksum of a byte string in lower-case hexadecimal, as
/// vendors publish for downloads.
pub fn sha256_hex(data: &Vec<u8>) -> (h: String)
    ensures
        h@ == hex_of(sha256_of(data@)),
        h@.len() == 64,
{
    let digest = sha256_bytes(data);
    proof {
        lemma_hex_len(digest@);
    }
    bytes_to_hex(&digest)
}

/// The directory hash reads nothing but the canonical traversal's byte
/// stream: trees whose sorted-entries traversals produce equal bytes hash
/// equally.
pub proof fn lemma_dir_hash_extensional(a: FsView, b: FsView)
    requires
        spec_encode(spec_canon(a)) == spec_encode(spec_canon(b)),
    ensures
        spec_dir_hash(a) == spec_dir_hash(b),
{
}

} // verus!
