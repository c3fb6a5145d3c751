//! The persisted cache record of one provisioned installation, and its
//! JSON file format: a verified emitter and parser for the manifest
//! schema. Files this crate writes parse back to the value they were
//! written from; files that do not fit the schema are rejected, and the
//! cache skips them.

use vstd::prelude::*;
use vstd::string::*;
use crate::install::{Architecture, JavaVersion, Vendor};
use crate::text::{
    dec_digits, dec_digit_char, is_digit_char, digit_val, str_chars, string_from_chars,
    u64_to_dec,
};
use crate::hashing::hex_digit_char;

verus! {

/// The persisted descriptor of a provisioned installation.
#[derive(Debug)]
pub struct Manifest {
    pub id: String,
    pub version: JavaVersion,
    pub known_vendor: Option<Vendor>,
    pub vendor: String,
    pub semver: String,
    pub architecture: Architecture,
    pub install_dir: String,
    pub is_jdk: bool,
    pub hash: String,
}

/// The mathematical shape of a manifest.
pub struct ManifestView {
    pub id: Seq<char>,
    pub version: JavaVersion,
    pub known_vendor: Option<Vendor>,
    pub vendor: Seq<char>,
    pub semver: Seq<char>,
    pub architecture: Architecture,
    pub install_dir: Seq<char>,
    pub is_jdk: bool,
    pub hash: Seq<char>,
}

impl View for Manifest {
    type V = ManifestView;

    open spec fn view(&self) -> ManifestView {
        ManifestView {
            id: self.id@,
            version: self.version,
            known_vendor: self.known_vendor,
            vendor: self.vendor@,
            semver: self.semver@,
            architecture: self.architecture,
            install_dir: self.install_dir@,
            is_jdk: self.is_jdk,
            hash: self.hash@,
        }
    }
}

/// A valid cache id: exactly six ASCII letters or digits.
pub open spec fn valid_id(s: Seq<char>) -> bool {
    s.len() == 6 && forall|i: int| 0 <= i < s.len() ==> crate::spec_alphanumeric(#[trigger] s[i])
}

/// Whether `s` is a valid cache id.
pub fn is_valid_id(s: &str) -> (r: bool)
    ensures
        r == valid_id(s@),
{
    let n = s.unicode_len();
    if n != 6 {
        return false;
    }
    let mut i: usize = 0;
    while i < n
        invariant
            i <= n,
            n == s@.len(),
            forall|j: int| 0 <= j < i ==> crate::spec_alphanumeric(#[trigger] s@[j]),
        decreases n - i,
    {
        if !crate::is_alphanumeric_char(s.get_char(i)) {
            return false;
        }
        i = i + 1;
    }
    true
}

/// The JSON escape of one character: the double quote, the backslash and
/// the common control characters take their short forms; other control
/// characters take a `\u00XX` form; everything else stands for itself.
pub open spec fn esc_char(c: char) -> Seq<char> {
    if c == '"' {
        seq!['\\', '"']
    } else if c == '\\' {
        seq!['\\', '\\']
    } else if c == '\n' {
        seq!['\\', 'n']
    } else if c == '\r' {
        seq!['\\', 'r']
    } else if c == '\t' {
        seq!['\\', 't']
    } else if (c as u32) < 32 {
        seq!['\\', 'u', '0', '0', hex_digit_char(c as u32 as int / 16), hex_digit_char(
            c as u32 as int % 16,
        )]
    } else {
        seq![c]
    }
}

/// The JSON escape of a string's characters.
pub open spec fn escape(s: Seq<char>) -> Seq<char>
    decreases s.len(),
{
    if s.len() == 0 {
        Seq::empty()
    } else {
        esc_char(s[0]) + escape(s.drop_first())
    }
}

/// Escaping distributes over extension at the right.
pub proof fn lemma_escape_snoc(s: Seq<char>, c: char)
    ensures
        escape(s.push(c)) == escape(s) + esc_char(c),
    decreases s.len(),
{
    reveal_with_fuel(escape, 3);
    if s.len() == 0 {
        assert(s.push(c)[0] == c);
        assert(s.push(c).drop_first() =~= Seq::<char>::empty());
        assert(escape(s.push(c)) =~= escape(s) + esc_char(c));
    } else {
        lemma_escape_snoc(s.drop_first(), c);
        assert(s.push(c)[0] == s[0]);
        assert(s.push(c).drop_first() =~= s.drop_first().push(c));
        assert(escape(s.push(c)) =~= escape(s) + esc_char(c));
    }
}

/// A JSON string token: quoted and escaped.
pub open spec fn json_string(s: Seq<char>) -> Seq<char> {
    seq!['"'] + escape(s) + seq!['"']
}

/// Append the characters of `s` to `out`.
fn push_str_chars(out: &mut Vec<char>, s: &str)
    ensures
        final(out)@ == old(out)@ + s@,
{
    let n = s.unicode_len();
    let mut i: usize = 0;
    assert(out@ =~= old(out)@ + s@.subrange(0, 0));
    while i < n
        invariant
            i <= n,
            n == s@.len(),
            out@ == old(out)@ + s@.subrange(0, i as int),
        decreases n - i,
    {
        out.push(s.get_char(i));
        i = i + 1;
        assert(out@ =~= old(out)@ + s@.subrange(0, i as int));
    }
    assert(out@ =~= old(out)@ + s@);
}

/// Append the JSON escape of one character to `out`.
fn push_esc_char(out: &mut Vec<char>, c: char)
    ensures
        final(out)@ == old(out)@ + esc_char(c),
{
    if c == '"' {
        out.push('\\');
        out.push('"');
        assert(out@ =~= old(out)@ + esc_char(c));
    } else if c == '\\' {
        out.push('\\');
        out.push('\\');
        assert(out@ =~= old(out)@ + esc_char(c));
    } else if c == '\n' {
        out.push('\\');
        out.push('n');
        assert(out@ =~= old(out)@ + esc_char(c));
    } else if c == '\r' {
        out.push('\\');
        out.push('r');
        assert(out@ =~= old(out)@ + esc_char(c));
    } else if c == '\t' {
        out.push('\\');
        out.push('t');
        assert(out@ =~= old(out)@ + esc_char(c));
    } else if (c as u32) < 32 {
        let v = c as u32;
        out.push('\\');
        out.push('u');
        out.push('0');
        out.push('0');
        out.push(crate::hashing::hex_char((v / 16) as u8));
        out.push(crate::hashing::hex_char((v % 16) as u8));
        assert(out@ =~= old(out)@ + esc_char(c));
    } else {
        out.push(c);
        assert(out@ =~= old(out)@ + esc_char(c));
    }
}

/// Append a JSON string token for `s` to `out`.
fn push_json_string(out: &mut Vec<char>, s: &str)
    ensures
        final(out)@ == old(out)@ + json_string(s@),
{
    let n = s.unicode_len();
    out.push('"');
    let ghost base = out@;
    let mut i: usize = 0;
    proof {
        assert(escape(s@.subrange(0, 0)) =~= Seq::<char>::empty());
        assert(out@ =~= base + escape(s@.subrange(0, 0)));
    }
    while i < n
        invariant
            i <= n,
            n == s@.len(),
            out@ == base + escape(s@.subrange(0, i as int)),
        decreases n - i,
    {
        push_esc_char(out, s.get_char(i));
        i = i + 1;
        proof {
            lemma_escape_snoc(s@.subrange(0, i - 1), s@[i - 1]);
            assert(s@.subrange(0, i as int) =~= s@.subrange(0, i - 1).push(s@[i - 1]));
            assert(out@ =~= base + escape(s@.subrange(0, i as int)));
        }
    }
    out.push('"');
    proof {
        assert(s@.subrange(0, s@.len() as int) =~= s@);
        assert(out@ =~= old(out)@ + json_string(s@));
    }
}

/// The serialized tag of a recognized vendor.
pub open spec fn spec_vendor_tag(v: Vendor) -> Seq<char> {
    match v {
        Vendor::Unknown => "Unknown"@,
        Vendor::AdoptOpenJdk => "AdoptOpenJdk"@,
        Vendor::Corretto => "Corretto"@,
        Vendor::GraalVmCe => "GraalVmCe"@,
        Vendor::Jetbrains => "Jetbrains"@,
        Vendor::Microsoft => "Microsoft"@,
        Vendor::OpenJdk => "OpenJdk"@,
        Vendor::Temurin => "Temurin"@,
        Vendor::Zulu => "Zulu"@,
    }
}

/// The serialized tag of an architecture.
pub open spec fn spec_arch_tag(a: Architecture) -> Seq<char> {
    match a {
        Architecture::X86 => "X86"@,
        Architecture::X86_64 => "X86_64"@,
        Architecture::Arm => "Arm"@,
        Architecture::Aarch64 => "Aarch64"@,
        Architecture::Powerpc => "Powerpc"@,
        Architecture::Powerpc64 => "Powerpc64"@,
    }
}

/// The serialized tag of a vendor, as a string slice.
fn vendor_tag(v: &Vendor) -> (r: &'static str)
    ensures
        r@ == spec_vendor_tag(*v),
{
    match v {
        Vendor::Unknown => "Unknown",
        Vendor::AdoptOpenJdk => "AdoptOpenJdk",
        Vendor::Corretto => "Corretto",
        Vendor::GraalVmCe => "GraalVmCe",
        Vendor::Jetbrains => "Jetbrains",
        Vendor::Microsoft => "Microsoft",
        Vendor::OpenJdk => "OpenJdk",
        Vendor::Temurin => "Temurin",
        Vendor::Zulu => "Zulu",
    }
}

/// The serialized tag of an architecture, as a string slice.
fn arch_tag(a: &Architecture) -> (r: &'static str)
    ensures
        r@ == spec_arch_tag(*a),
{
    match a {
        Architecture::X86 => "X86",
        Architecture::X86_64 => "X86_64",
        Architecture::Arm => "Arm",
        Architecture::Aarch64 => "Aarch64",
        Architecture::Powerpc => "Powerpc",
        Architecture::Powerpc64 => "Powerpc64",
    }
}

/// The serialized form of the optional recognized vendor: its quoted tag,
/// or `null`.
pub open spec fn spec_known_vendor_json(v: Option<Vendor>) -> Seq<char> {
    match v {
        Option::None => "null"@,
        Option::Some(x) => seq!['"'] + spec_vendor_tag(x) + seq!['"'],
    }
}

/// The manifest file format: one pretty-printed JSON object whose fields
/// stand in this fixed order. The major version is serialized as its
/// number; vendor and architecture carry their tags; the optional vendor
/// is `null` when absent.
pub open spec fn spec_manifest_json(m: ManifestView) -> Seq<char> {
    "{\n  \"id\": "@ + json_string(m.id) + ",\n  \"version\": "@ + dec_digits(
        m.version.spec_number(),
    ) + ",\n  \"known_vendor\": "@ + spec_known_vendor_json(m.known_vendor) + ",\n  \"vendor\": "@
        + json_string(m.vendor) + ",\n  \"semver\": "@ + json_string(m.semver)
        + ",\n  \"architecture\": \""@ + spec_arch_tag(m.architecture) + "\""@
        + ",\n  \"install_dir\": "@ + json_string(m.install_dir) + ",\n  \"is_jdk\": "@ + (
    if m.is_jdk {
        "true"@
    } else {
        "false"@
    }) + ",\n  \"hash\": "@ + json_string(m.hash) + "\n}"@
}

/// Serialize a manifest into its JSON file form.
#[verifier::rlimit(100)]
pub fn manifest_to_json(m: &Manifest) -> (r: String)
    ensures
        r@ == spec_manifest_json(m@),
{
    let mut out: Vec<char> = Vec::new();
    push_str_chars(&mut out, "{\n  \"id\": ");
    push_json_string(&mut out, m.id.as_str());
    push_str_chars(&mut out, ",\n  \"version\": ");
    let vnum = u64_to_dec(m.version.number());
    let mut i: usize = 0;
    let ghost mid = out@;
    while i < vnum.len()
        invariant
            i <= vnum@.len(),
            out@ == mid + vnum@.subrange(0, i as int),
        decreases vnum@.len() - i,
    {
        out.push(vnum[i]);
        i = i + 1;
        assert(out@ =~= mid + vnum@.subrange(0, i as int));
    }
    assert(out@ =~= mid + vnum@);
    push_str_chars(&mut out, ",\n  \"known_vendor\": ");
    match &m.known_vendor {
        Option::Some(v) => {
            push_str_chars(&mut out, "\"");
            push_str_chars(&mut out, vendor_tag(v));
            push_str_chars(&mut out, "\"");
            assert(out@.subrange(0, out@.len() as int) =~= out@);
        },
        Option::None => {
            push_str_chars(&mut out, "null");
        },
    }
    push_str_chars(&mut out, ",\n  \"vendor\": ");
    push_json_string(&mut out, m.vendor.as_str());
    push_str_chars(&mut out, ",\n  \"semver\": ");
    push_json_string(&mut out, m.semver.as_str());
    push_str_chars(&mut out, ",\n  \"architecture\": \"");
    push_str_chars(&mut out, arch_tag(&m.architecture));
    push_str_chars(&mut out, "\"");
    push_str_chars(&mut out, ",\n  \"install_dir\": ");
    push_json_string(&mut out, m.install_dir.as_str());
    push_str_chars(&mut out, ",\n  \"is_jdk\": ");
    if m.is_jdk {
        push_str_chars(&mut out, "true");
    } else {
        push_str_chars(&mut out, "false");
    }
    push_str_chars(&mut out, ",\n  \"hash\": ");
    push_json_string(&mut out, m.hash.as_str());
    push_str_chars(&mut out, "\n}");
    proof {
        assert(seq!['"'] + spec_vendor_tag(m@.known_vendor->Some_0) + seq!['"'] =~= "\""@
            + spec_vendor_tag(m@.known_vendor->Some_0) + "\""@) by {
            reveal_strlit("\"");
        }
        assert(out@ =~= spec_manifest_json(m@));
    }
    string_from_chars(&out)
}

/// A JSON whitespace character.
pub open spec fn is_ws(c: char) -> bool {
    c == ' ' || c == '\n' || c == '\r' || c == '\t'
}

/// The input with its leading whitespace removed.
pub open spec fn skip_ws(s: Seq<char>) -> Seq<char>
    decreases s.len(),
{
    if s.len() > 0 && is_ws(s[0]) {
        skip_ws(s.drop_first())
    } else {
        s
    }
}

/// Consume an exact token from the front of the input.
pub open spec fn expect(s: Seq<char>, lit: Seq<char>) -> Option<Seq<char>> {
    if lit.len() <= s.len() && s.take(lit.len() as int) == lit {
        Option::Some(s.skip(lit.len() as int))
    } else {
        Option::None
    }
}

/// A lower-case hexadecimal digit.
pub open spec fn is_hex_char(c: char) -> bool {
    is_digit_char(c) || ('a' <= c && c <= 'f')
}

/// The value of a lower-case hexadecimal digit.
pub open spec fn hex_val(c: char) -> int
    recommends
        is_hex_char(c),
{
    if is_digit_char(c) {
        digit_val(c)
    } else {
        c as u32 - 'a' as u32 + 10
    }
}

/// Read the remainder of a JSON string token (the opening quote already
/// consumed): plain characters stand for themselves, the short escapes
/// and `\u00XX` forms are decoded, and the closing quote ends the token.
/// Anything else, or an unterminated token, fails.
pub open spec fn scan_jstring(s: Seq<char>, acc: Seq<char>) -> Option<(Seq<char>, Seq<char>)>
    decreases s.len(),
{
    if s.len() == 0 {
        Option::None
    } else if s[0] == '"' {
        Option::Some((acc, s.drop_first()))
    } else if s[0] == '\\' {
        if s.len() < 2 {
            Option::None
        } else if s[1] == '"' {
            scan_jstring(s.skip(2), acc.push('"'))
        } else if s[1] == '\\' {
            scan_jstring(s.skip(2), acc.push('\\'))
        } else if s[1] == '/' {
            scan_jstring(s.skip(2), acc.push('/'))
        } else if s[1] == 'n' {
            scan_jstring(s.skip(2), acc.push('\n'))
        } else if s[1] == 'r' {
            scan_jstring(s.skip(2), acc.push('\r'))
        } else if s[1] == 't' {
            scan_jstring(s.skip(2), acc.push('\t'))
        } else if s[1] == 'u' {
            if s.len() < 6 {
                Option::None
            } else if s[2] == '0' && s[3] == '0' && is_hex_char(s[4]) && is_hex_char(s[5]) {
                scan_jstring(
                    s.skip(6),
                    acc.push(((16 * hex_val(s[4]) + hex_val(s[5])) as u32) as char),
                )
            } else {
                Option::None
            }
        } else {
            Option::None
        }
    } else {
        scan_jstring(s.drop_first(), acc.push(s[0]))
    }
}

/// Consume a complete JSON string token.
pub open spec fn parse_jstring(s: Seq<char>) -> Option<(Seq<char>, Seq<char>)> {
    match expect(s, seq!['"']) {
        Option::None => Option::None,
        Option::Some(r) => scan_jstring(r, Seq::empty()),
    }
}

/// Consume a run of at most nine decimal digits and their value.
pub open spec fn scan_number(s: Seq<char>, acc: int, seen: int) -> Option<(int, Seq<char>)>
    decreases s.len(),
{
    if s.len() > 0 && is_digit_char(s[0]) {
        if seen >= 9 {
            Option::None
        } else {
            scan_number(s.drop_first(), acc * 10 + digit_val(s[0]), seen + 1)
        }
    } else if seen == 0 {
        Option::None
    } else {
        Option::Some((acc, s))
    }
}

/// The vendor whose serialized tag is `t`.
pub open spec fn vendor_of_tag(t: Seq<char>) -> Option<Vendor> {
    if t == spec_vendor_tag(Vendor::Unknown) {
        Option::Some(Vendor::Unknown)
    } else if t == spec_vendor_tag(Vendor::AdoptOpenJdk) {
        Option::Some(Vendor::AdoptOpenJdk)
    } else if t == spec_vendor_tag(Vendor::Corretto) {
        Option::Some(Vendor::Corretto)
    } else if t == spec_vendor_tag(Vendor::GraalVmCe) {
        Option::Some(Vendor::GraalVmCe)
    } else if t == spec_vendor_tag(Vendor::Jetbrains) {
        Option::Some(Vendor::Jetbrains)
    } else if t == spec_vendor_tag(Vendor::Microsoft) {
        Option::Some(Vendor::Microsoft)
    } else if t == spec_vendor_tag(Vendor::OpenJdk) {
        Option::Some(Vendor::OpenJdk)
    } else if t == spec_vendor_tag(Vendor::Temurin) {
        Option::Some(Vendor::Temurin)
    } else if t == spec_vendor_tag(Vendor::Zulu) {
        Option::Some(Vendor::Zulu)
    } else {
        Option::None
    }
}

/// The architecture whose serialized tag is `t`.
pub open spec fn arch_of_tag(t: Seq<char>) -> Option<Architecture> {
    if t == spec_arch_tag(Architecture::X86) {
        Option::Some(Architecture::X86)
    } else if t == spec_arch_tag(Architecture::X86_64) {
        Option::Some(Architecture::X86_64)
    } else if t == spec_arch_tag(Architecture::Arm) {
        Option::Some(Architecture::Arm)
    } else if t == spec_arch_tag(Architecture::Aarch64) {
        Option::Some(Architecture::Aarch64)
    } else if t == spec_arch_tag(Architecture::Powerpc) {
        Option::Some(Architecture::Powerpc)
    } else if t == spec_arch_tag(Architecture::Powerpc64) {
        Option::Some(Architecture::Powerpc64)
    } else {
        Option::None
    }
}

/// Consume the optional recognized vendor: `null`, or a quoted tag.
pub open spec fn parse_vendor_value(s: Seq<char>) -> Option<(Option<Vendor>, Seq<char>)> {
    match expect(s, "null"@) {
        Option::Some(r) => Option::Some((Option::None, r)),
        Option::None => match parse_jstring(s) {
            Option::None => Option::None,
            Option::Some((t, r)) => match vendor_of_tag(t) {
                Option::None => Option::None,
                Option::Some(v) => Option::Some((Option::Some(v), r)),
            },
        },
    }
}

/// Consume a JSON boolean.
pub open spec fn parse_bool(s: Seq<char>) -> Option<(bool, Seq<char>)> {
    match expect(s, "true"@) {
        Option::Some(r) => Option::Some((true, r)),
        Option::None => match expect(s, "false"@) {
            Option::Some(r) => Option::Some((false, r)),
            Option::None => Option::None,
        },
    }
}

/// Consume a quoted field key and its colon, with surrounding whitespace.
pub open spec fn eat_key(s: Seq<char>, key: Seq<char>) -> Option<Seq<char>> {
    let a = skip_ws(s);
    match expect(a, seq!['"'] + key + seq!['"']) {
        Option::None => Option::None,
        Option::Some(b) => {
            let c = skip_ws(b);
            match expect(c, seq![':']) {
                Option::None => Option::None,
                Option::Some(d) => Option::Some(skip_ws(d)),
            }
        },
    }
}

/// Consume the comma between fields, with surrounding whitespace.
pub open spec fn eat_comma(s: Seq<char>) -> Option<Seq<char>> {
    let a = skip_ws(s);
    expect(a, seq![','])
}

/// Leading whitespace is skipped, one run at a time.
proof fn lemma_skip_ws_through(w: Seq<char>, r: Seq<char>)
    requires
        forall|i: int| 0 <= i < w.len() ==> is_ws(#[trigger] w[i]),
    ensures
        skip_ws(w + r) == skip_ws(r),
    decreases w.len(),
{
    if w.len() == 0 {
        assert(w + r =~= r);
    } else {
        assert((w + r)[0] == w[0]);
        assert((w + r).drop_first() =~= w.drop_first() + r);
        lemma_skip_ws_through(w.drop_first(), r);
    }
}

/// A token at the front of the input is consumed exactly.
proof fn lemma_expect_prefix(lit: Seq<char>, rest: Seq<char>)
    ensures
        expect(lit + rest, lit) == Option::Some(rest),
{
    assert((lit + rest).take(lit.len() as int) =~= lit);
    assert((lit + rest).skip(lit.len() as int) =~= rest);
}

/// Scanning the escape of a string, followed by the closing quote,
/// accumulates exactly that string.
proof fn lemma_scan_escaped(x: Seq<char>, acc: Seq<char>, rest: Seq<char>)
    ensures
        scan_jstring(escape(x) + seq!['"'] + rest, acc) == Option::Some((acc + x, rest)),
    decreases x.len(),
{
    if x.len() == 0 {
        let s = escape(x) + seq!['"'] + rest;
        assert(s =~= seq!['"'] + rest);
        assert(s[0] == '"');
        assert(s.drop_first() =~= rest);
        assert(acc + x =~= acc);
    } else {
        let c = x[0];
        let s = escape(x) + seq!['"'] + rest;
        assert(escape(x) == esc_char(c) + escape(x.drop_first()));
        let s2 = escape(x.drop_first()) + seq!['"'] + rest;
        lemma_scan_escaped(x.drop_first(), acc.push(c), rest);
        assert(acc.push(c) + x.drop_first() =~= acc + x);
        if c == '"' {
            assert(s =~= seq!['\\', '"'] + s2);
            assert(s[0] == '\\' && s[1] == '"');
            assert(s.skip(2) =~= s2);
        } else if c == '\\' {
            assert(s =~= seq!['\\', '\\'] + s2);
            assert(s[0] == '\\' && s[1] == '\\');
            assert(s.skip(2) =~= s2);
        } else if c == '\n' {
            assert(s =~= seq!['\\', 'n'] + s2);
            assert(s[0] == '\\' && s[1] == 'n');
            assert(s.skip(2) =~= s2);
        } else if c == '\r' {
            assert(s =~= seq!['\\', 'r'] + s2);
            assert(s[0] == '\\' && s[1] == 'r');
            assert(s.skip(2) =~= s2);
        } else if c == '\t' {
            assert(s =~= seq!['\\', 't'] + s2);
            assert(s[0] == '\\' && s[1] == 't');
            assert(s.skip(2) =~= s2);
        } else if (c as u32) < 32 {
            let hi = hex_digit_char(c as u32 as int / 16);
            let lo = hex_digit_char(c as u32 as int % 16);
            assert(s =~= seq!['\\', 'u', '0', '0', hi, lo] + s2);
            assert(s[0] == '\\' && s[1] == 'u' && s[2] == '0' && s[3] == '0');
            assert(s[4] == hi && s[5] == lo);
            assert(is_hex_char(hi) && hex_val(hi) == c as u32 as int / 16);
            assert(is_hex_char(lo) && hex_val(lo) == c as u32 as int % 16);
            assert(16 * hex_val(s[4]) + hex_val(s[5]) == c as u32);
            assert(((16 * hex_val(s[4]) + hex_val(s[5])) as u32) as char == c) by {
                vstd::utf8::char_u32_cast(c, c as u32);
            }
            assert(s.skip(6) =~= s2);
        } else {
            assert(esc_char(c) == seq![c]);
            assert(s[0] == c);
            assert(c != '"' && c != '\\');
            assert(s.drop_first() =~= s2);
        }
    }
}

/// A quoted, escaped string token parses back to the string it encodes.
proof fn lemma_parse_jstring_of(x: Seq<char>, rest: Seq<char>)
    ensures
        parse_jstring(json_string(x) + rest) == Option::Some((x, rest)),
{
    assert(json_string(x) + rest =~= seq!['"'] + (escape(x) + seq!['"'] + rest));
    lemma_expect_prefix(seq!['"'], escape(x) + seq!['"'] + rest);
    lemma_scan_escaped(x, Seq::empty(), rest);
    assert(Seq::<char>::empty() + x =~= x);
}

/// A one or two digit decimal number parses back to its value, when what
/// follows is not a digit.
proof fn lemma_scan_number_small(n: int, rest: Seq<char>)
    requires
        0 <= n <= 99,
        rest.len() > 0 ==> !is_digit_char(rest[0]),
    ensures
        scan_number(dec_digits(n) + rest, 0, 0) == Option::Some((n, rest)),
{
    reveal_with_fuel(dec_digits, 3);
    reveal_with_fuel(scan_number, 4);
    if n < 10 {
        let s = dec_digits(n) + rest;
        assert(dec_digits(n) =~= seq![dec_digit_char(n)]);
        assert(s[0] == dec_digit_char(n));
        assert(is_digit_char(s[0]) && digit_val(s[0]) == n);
        assert(s.drop_first() =~= rest);
    } else {
        let q = n / 10;
        let r = n % 10;
        let s = dec_digits(n) + rest;
        assert(dec_digits(n) =~= seq![dec_digit_char(q), dec_digit_char(r)]);
        assert(s[0] == dec_digit_char(q));
        assert(is_digit_char(s[0]) && digit_val(s[0]) == q);
        assert(s.drop_first() =~= seq![dec_digit_char(r)] + rest);
        assert(s.drop_first()[0] == dec_digit_char(r));
        assert(s.drop_first().drop_first() =~= rest);
    }
}

/// Looking a vendor tag up gives the vendor back.
proof fn lemma_vendor_tag_inverse(v: Vendor)
    ensures
        vendor_of_tag(spec_vendor_tag(v)) == Option::Some(v),
{
    reveal_strlit("Unknown");
    reveal_strlit("AdoptOpenJdk");
    reveal_strlit("Corretto");
    reveal_strlit("GraalVmCe");
    reveal_strlit("Jetbrains");
    reveal_strlit("Microsoft");
    reveal_strlit("OpenJdk");
    reveal_strlit("Temurin");
    reveal_strlit("Zulu");
    assert("Unknown"@.len() == 7);
    assert("AdoptOpenJdk"@.len() == 12);
    assert("Corretto"@.len() == 8);
    assert("GraalVmCe"@.len() == 9);
    assert("Jetbrains"@.len() == 9);
    assert("Microsoft"@.len() == 9);
    assert("OpenJdk"@.len() == 7);
    assert("Temurin"@.len() == 7);
    assert("Zulu"@.len() == 4);
    assert("Unknown"@[0] != "OpenJdk"@[0]);
    assert("Unknown"@[0] != "Temurin"@[0]);
    assert("OpenJdk"@[0] != "Temurin"@[0]);
    assert("GraalVmCe"@[0] != "Jetbrains"@[0]);
    assert("GraalVmCe"@[0] != "Microsoft"@[0]);
    assert("Jetbrains"@[0] != "Microsoft"@[0]);
}

/// Looking an architecture tag up gives the architecture back.
proof fn lemma_arch_tag_inverse(a: Architecture)
    ensures
        arch_of_tag(spec_arch_tag(a)) == Option::Some(a),
{
    reveal_strlit("X86");
    reveal_strlit("X86_64");
    reveal_strlit("Arm");
    reveal_strlit("Aarch64");
    reveal_strlit("Powerpc");
    reveal_strlit("Powerpc64");
    assert("X86"@.len() == 3);
    assert("X86_64"@.len() == 6);
    assert("Arm"@.len() == 3);
    assert("Aarch64"@.len() == 7);
    assert("Powerpc"@.len() == 7);
    assert("Powerpc64"@.len() == 9);
    assert("X86"@[0] != "Arm"@[0]);
    assert("Aarch64"@[0] != "Powerpc"@[0]);
}

/// The characters between a field's comma and its value: newline, indent,
/// the quoted key, the colon and one space.
spec fn tail_of(key: Seq<char>) -> Seq<char> {
    seq!['\n', ' ', ' ', '"'] + key + seq!['"', ':', ' ']
}

/// Escaping is the identity on strings without special or control
/// characters.
proof fn lemma_escape_plain(t: Seq<char>)
    requires
        forall|i: int|
            0 <= i < t.len() ==> (#[trigger] t[i]) != '"' && t[i] != '\\' && (t[i] as u32) >= 32,
    ensures
        escape(t) == t,
    decreases t.len(),
{
    if t.len() == 0 {
        assert(escape(t) =~= t);
    } else {
        assert(t[0] != '\n' && t[0] != '\r' && t[0] != '\t') by {
            assert((t[0] as u32) >= 32);
            assert(('\n' as u32) < 32 && ('\r' as u32) < 32 && ('\t' as u32) < 32);
        }
        assert(esc_char(t[0]) == seq![t[0]]);
        assert(forall|i: int|
            0 <= i < t.drop_first().len() ==> (#[trigger] t.drop_first()[i]) == t[i + 1]);
        lemma_escape_plain(t.drop_first());
        assert(escape(t) =~= t);
    }
}

/// A key introducer parses off the front of the input: the whitespace is
/// skipped, the quoted key and its colon consumed, and the value's first
/// character reached.
proof fn lemma_key_sep(key: Seq<char>, x: Seq<char>)
    requires
        x.len() > 0,
        !is_ws(x[0]),
    ensures
        eat_key(tail_of(key) + x, key) == Option::Some(x),
{
    let quoted = seq!['"'] + key + seq!['"'];
    let after_key = seq![':', ' '] + x;
    let s = tail_of(key) + x;
    assert(s =~= seq!['\n', ' ', ' '] + (quoted + after_key));
    lemma_skip_ws_through(seq!['\n', ' ', ' '], quoted + after_key);
    assert((quoted + after_key)[0] == '"');
    assert(skip_ws(quoted + after_key) == quoted + after_key);
    lemma_expect_prefix(quoted, after_key);
    assert(after_key[0] == ':');
    assert(skip_ws(after_key) == after_key);
    assert(after_key =~= seq![':'] + (seq![' '] + x));
    lemma_expect_prefix(seq![':'], seq![' '] + x);
    lemma_skip_ws_through(seq![' '], x);
    assert(skip_ws(x) == x);
}

/// The comma between fields parses off the front of the input.
proof fn lemma_comma_sep(r: Seq<char>)
    ensures
        eat_comma(seq![','] + r) == Option::Some(r),
{
    assert((seq![','] + r)[0] == ',');
    assert(skip_ws(seq![','] + r) == seq![','] + r);
    lemma_expect_prefix(seq![','], r);
}

/// The document suffix from the `install_dir` key on.
spec fn doc_end(m: ManifestView) -> Seq<char> {
    tail_of("install_dir"@) + json_string(m.install_dir) + seq![','] + tail_of("is_jdk"@) + (
    if m.is_jdk {
        "true"@
    } else {
        "false"@
    }) + seq![','] + tail_of("hash"@) + json_string(m.hash) + seq!['\n', '}']
}

/// The document suffix from the `vendor` key on.
spec fn doc_tail(m: ManifestView) -> Seq<char> {
    tail_of("vendor"@) + json_string(m.vendor) + seq![','] + tail_of("semver"@) + json_string(
        m.semver,
    ) + seq![','] + tail_of("architecture"@) + seq!['"'] + spec_arch_tag(m.architecture)
        + seq!['"'] + seq![','] + doc_end(m)
}

/// The last fields of the document parse back to their values.
#[verifier::rlimit(100)]
proof fn lemma_rt_end(m: ManifestView)
    ensures
        spec_parse_manifest_end(
            doc_end(m),
            m.id,
            m.version,
            m.known_vendor,
            m.vendor,
            m.semver,
            m.architecture,
        ) == Option::Some(m),
{
    reveal_strlit("true");
    reveal_strlit("false");
    let jdk_lit: Seq<char> = if m.is_jdk {
        "true"@
    } else {
        "false"@
    };
    let r_close: Seq<char> = seq!['\n', '}'];
    let r_hash = tail_of("hash"@) + json_string(m.hash) + r_close;
    let r_jdk = tail_of("is_jdk"@) + jdk_lit + seq![','] + r_hash;
    // install_dir
    assert(doc_end(m) =~= tail_of("install_dir"@) + (json_string(m.install_dir) + seq![',']
        + r_jdk));
    assert(json_string(m.install_dir)[0] == '"');
    lemma_key_sep("install_dir"@, json_string(m.install_dir) + seq![','] + r_jdk);
    assert(json_string(m.install_dir) + seq![','] + r_jdk =~= json_string(m.install_dir) + (
    seq![','] + r_jdk));
    lemma_parse_jstring_of(m.install_dir, seq![','] + r_jdk);
    lemma_comma_sep(r_jdk);
    // is_jdk
    assert(jdk_lit.len() > 0 && !is_ws(jdk_lit[0]));
    assert(r_jdk =~= tail_of("is_jdk"@) + (jdk_lit + seq![','] + r_hash));
    lemma_key_sep("is_jdk"@, jdk_lit + seq![','] + r_hash);
    assert(jdk_lit + seq![','] + r_hash =~= jdk_lit + (seq![','] + r_hash));
    if m.is_jdk {
        assert(jdk_lit + seq![','] + r_hash =~= "true"@ + (seq![','] + r_hash));
        lemma_expect_prefix("true"@, seq![','] + r_hash);
    } else {
        assert(expect(jdk_lit + seq![','] + r_hash, "true"@) is None) by {
            let s = jdk_lit + seq![','] + r_hash;
            if "true"@.len() <= s.len() && s.take("true"@.len() as int) == "true"@ {
                assert(s.take("true"@.len() as int)[0] == s[0]);
                assert(s[0] == 'f');
            }
        }
        assert(jdk_lit + seq![','] + r_hash =~= "false"@ + (seq![','] + r_hash));
        lemma_expect_prefix("false"@, seq![','] + r_hash);
    }
    lemma_comma_sep(r_hash);
    // hash
    assert(r_hash =~= tail_of("hash"@) + (json_string(m.hash) + r_close));
    assert(json_string(m.hash)[0] == '"');
    lemma_key_sep("hash"@, json_string(m.hash) + r_close);
    lemma_parse_jstring_of(m.hash, r_close);
    // the closing brace and nothing else
    assert(r_close =~= seq!['\n'] + seq!['}']);
    lemma_skip_ws_through(seq!['\n'], seq!['}']);
    assert(skip_ws(seq!['}']) == seq!['}']);
    assert(seq!['}'] =~= seq!['}'] + Seq::<char>::empty());
    lemma_expect_prefix(seq!['}'], Seq::<char>::empty());
    assert(skip_ws(Seq::<char>::empty()).len() == 0);
}

/// The middle fields of the document parse back to their values.
#[verifier::rlimit(100)]
proof fn lemma_rt_tail(m: ManifestView)
    ensures
        spec_parse_manifest_tail(doc_tail(m), m.id, m.version, m.known_vendor) == Option::Some(m),
{
    reveal_strlit("X86");
    reveal_strlit("X86_64");
    reveal_strlit("Arm");
    reveal_strlit("Aarch64");
    reveal_strlit("Powerpc");
    reveal_strlit("Powerpc64");
    let tag = spec_arch_tag(m.architecture);
    let r_arch_value = seq!['"'] + tag + seq!['"'] + seq![','] + doc_end(m);
    let r_arch = tail_of("architecture"@) + r_arch_value;
    let r_semver = tail_of("semver"@) + json_string(m.semver) + seq![','] + r_arch;
    // vendor
    assert(doc_tail(m) =~= tail_of("vendor"@) + (json_string(m.vendor) + seq![','] + r_semver));
    assert(json_string(m.vendor)[0] == '"');
    lemma_key_sep("vendor"@, json_string(m.vendor) + seq![','] + r_semver);
    assert(json_string(m.vendor) + seq![','] + r_semver =~= json_string(m.vendor) + (seq![',']
        + r_semver));
    lemma_parse_jstring_of(m.vendor, seq![','] + r_semver);
    lemma_comma_sep(r_semver);
    // semver
    assert(r_semver =~= tail_of("semver"@) + (json_string(m.semver) + seq![','] + r_arch));
    assert(json_string(m.semver)[0] == '"');
    lemma_key_sep("semver"@, json_string(m.semver) + seq![','] + r_arch);
    assert(json_string(m.semver) + seq![','] + r_arch =~= json_string(m.semver) + (seq![',']
        + r_arch));
    lemma_parse_jstring_of(m.semver, seq![','] + r_arch);
    lemma_comma_sep(r_arch);
    // architecture: a quoted bare tag
    assert(r_arch =~= tail_of("architecture"@) + r_arch_value);
    assert(r_arch_value[0] == '"');
    lemma_key_sep("architecture"@, r_arch_value);
    assert(forall|i: int|
        0 <= i < tag.len() ==> (#[trigger] tag[i]) != '"' && tag[i] != '\\' && (tag[i] as u32)
            >= 32);
    lemma_escape_plain(tag);
    assert(r_arch_value =~= json_string(tag) + (seq![','] + doc_end(m)));
    lemma_parse_jstring_of(tag, seq![','] + doc_end(m));
    lemma_arch_tag_inverse(m.architecture);
    lemma_comma_sep(doc_end(m));
    lemma_rt_end(m);
}

/// Parsing the serialized form of any manifest yields that manifest back:
/// writing a manifest file and reading it returns an equal record.
#[verifier::rlimit(100)]
pub proof fn lemma_manifest_round_trip(m: ManifestView)
    ensures
        spec_parse_manifest(spec_manifest_json(m)) == Option::Some(m),
{
    reveal_strlit("{\n  \"id\": ");
    reveal_strlit(",\n  \"version\": ");
    reveal_strlit(",\n  \"known_vendor\": ");
    reveal_strlit(",\n  \"vendor\": ");
    reveal_strlit(",\n  \"semver\": ");
    reveal_strlit(",\n  \"architecture\": \"");
    reveal_strlit("\"");
    reveal_strlit(",\n  \"install_dir\": ");
    reveal_strlit(",\n  \"is_jdk\": ");
    reveal_strlit(",\n  \"hash\": ");
    reveal_strlit("\n}");
    reveal_strlit("id");
    reveal_strlit("version");
    reveal_strlit("known_vendor");
    reveal_strlit("vendor");
    reveal_strlit("semver");
    reveal_strlit("architecture");
    reveal_strlit("install_dir");
    reveal_strlit("is_jdk");
    reveal_strlit("hash");
    reveal_strlit("null");
    reveal_strlit("true");
    reveal_strlit("false");
    reveal_with_fuel(dec_digits, 3);
    let doc = spec_manifest_json(m);
    let n = m.version.spec_number();
    let kv_lit: Seq<char> = spec_known_vendor_json(m.known_vendor);
    let r_kv = tail_of("known_vendor"@) + kv_lit + seq![','] + doc_tail(m);
    let r_version = tail_of("version"@) + dec_digits(n) + seq![','] + r_kv;
    let r_id = tail_of("id"@) + json_string(m.id) + seq![','] + r_version;
    assert(doc =~= seq!['{'] + r_id);
    assert(doc[0] == '{');
    assert(skip_ws(doc) == doc);
    lemma_expect_prefix(seq!['{'], r_id);
    // id
    assert(r_id =~= tail_of("id"@) + (json_string(m.id) + seq![','] + r_version));
    assert(json_string(m.id)[0] == '"');
    lemma_key_sep("id"@, json_string(m.id) + seq![','] + r_version);
    assert(json_string(m.id) + seq![','] + r_version =~= json_string(m.id) + (seq![',']
        + r_version));
    lemma_parse_jstring_of(m.id, seq![','] + r_version);
    lemma_comma_sep(r_version);
    // version
    assert(1 <= n <= 40);
    assert(dec_digits(n).len() > 0 && is_digit_char(dec_digits(n)[0]) && !is_ws(dec_digits(n)[0]));
    assert(r_version =~= tail_of("version"@) + (dec_digits(n) + seq![','] + r_kv));
    lemma_key_sep("version"@, dec_digits(n) + seq![','] + r_kv);
    assert(dec_digits(n) + seq![','] + r_kv =~= dec_digits(n) + (seq![','] + r_kv));
    assert((seq![','] + r_kv)[0] == ',');
    lemma_scan_number_small(n, seq![','] + r_kv);
    crate::install::lemma_from_number_inverse(m.version);
    lemma_comma_sep(r_kv);
    // known_vendor
    assert(kv_lit.len() > 0 && !is_ws(kv_lit[0])) by {
        match m.known_vendor {
            Option::None => {
                assert(kv_lit == "null"@);
                reveal_strlit("null");
            },
            Option::Some(v) => {
                assert(kv_lit[0] == '"');
            },
        }
    }
    assert(r_kv =~= tail_of("known_vendor"@) + (kv_lit + seq![','] + doc_tail(m)));
    lemma_key_sep("known_vendor"@, kv_lit + seq![','] + doc_tail(m));
    lemma_rt_known_vendor(m);
    lemma_comma_sep(doc_tail(m));
    lemma_rt_tail(m);
}

/// The optional recognized vendor parses back to its value.
#[verifier::rlimit(100)]
proof fn lemma_rt_known_vendor(m: ManifestView)
    ensures
        parse_vendor_value(spec_known_vendor_json(m.known_vendor) + seq![','] + doc_tail(m))
            == Option::Some((m.known_vendor, seq![','] + doc_tail(m))),
{
    reveal_strlit("null");
    let kv_lit: Seq<char> = spec_known_vendor_json(m.known_vendor);
    let s_kv = kv_lit + seq![','] + doc_tail(m);
    assert(s_kv =~= kv_lit + (seq![','] + doc_tail(m)));
    match m.known_vendor {
        Option::None => {
            assert(s_kv =~= "null"@ + (seq![','] + doc_tail(m)));
            lemma_expect_prefix("null"@, seq![','] + doc_tail(m));
        },
        Option::Some(v) => {
            let tag = spec_vendor_tag(v);
            assert(expect(s_kv, "null"@) is None) by {
                if "null"@.len() <= s_kv.len() && s_kv.take("null"@.len() as int) == "null"@ {
                    assert(s_kv.take("null"@.len() as int)[0] == s_kv[0]);
                    assert(s_kv[0] == '"');
                }
            }
            reveal_strlit("Unknown");
            reveal_strlit("AdoptOpenJdk");
            reveal_strlit("Corretto");
            reveal_strlit("GraalVmCe");
            reveal_strlit("Jetbrains");
            reveal_strlit("Microsoft");
            reveal_strlit("OpenJdk");
            reveal_strlit("Temurin");
            reveal_strlit("Zulu");
            assert(forall|i: int|
                0 <= i < tag.len() ==> (#[trigger] tag[i]) != '"' && tag[i] != '\\'
                    && (tag[i] as u32) >= 32);
            lemma_escape_plain(tag);
            assert(s_kv =~= json_string(tag) + (seq![','] + doc_tail(m)));
            lemma_parse_jstring_of(tag, seq![','] + doc_tail(m));
            lemma_vendor_tag_inverse(v);
        },
    }
}

/// Move past leading whitespace.
fn skip_ws_exec(v: &Vec<char>, i: usize) -> (j: usize)
    requires
        i <= v@.len(),
    ensures
        i <= j <= v@.len(),
        skip_ws(v@.skip(i as int)) == v@.skip(j as int),
{
    let mut j: usize = i;
    loop
        invariant
            i <= j <= v@.len(),
            v.len() == v@.len(),
            skip_ws(v@.skip(i as int)) == skip_ws(v@.skip(j as int)),
        ensures
            i <= j <= v@.len(),
            skip_ws(v@.skip(i as int)) == v@.skip(j as int),
        decreases v@.len() - j,
    {
        if j >= v.len() {
            assert(v@.skip(j as int).len() == 0);
            break ;
        }
        let c = v[j];
        assert(v@.skip(j as int)[0] == c);
        if !(c == ' ' || c == '\n' || c == '\r' || c == '\t') {
            break ;
        }
        assert(v@.skip(j as int).drop_first() =~= v@.skip(j + 1));
        j = j + 1;
    }
    j
}

/// Consume an exact token at offset `i`.
fn expect_exec(v: &Vec<char>, i: usize, lit: &str) -> (r: Option<usize>)
    requires
        i <= v@.len(),
    ensures
        match r {
            Option::Some(j) => i <= j <= v@.len() && expect(v@.skip(i as int), lit@)
                == Option::Some(v@.skip(j as int)),
            Option::None => expect(v@.skip(i as int), lit@) is None,
        },
{
    let n = lit.unicode_len();
    assert(v@.skip(i as int).len() == v@.len() - i);
    if n > v.len() - i {
        return Option::None;
    }
    let mut k: usize = 0;
    while k < n
        invariant
            k <= n,
            n == lit@.len(),
            i + n <= v@.len(),
            v.len() == v@.len(),
            forall|t: int| 0 <= t < k ==> v@.skip(i as int)[t] == lit@[t],
        decreases n - k,
    {
        assert(v@.skip(i as int)[k as int] == v@[i + k]);
        if v[i + k] != lit.get_char(k) {
            assert(v@.skip(i as int).take(n as int)[k as int] != lit@[k as int]);
            return Option::None;
        }
        k = k + 1;
    }
    assert(v@.skip(i as int).take(n as int) =~= lit@);
    assert(v@.skip(i as int).skip(n as int) =~= v@.skip(i + n));
    Option::Some(i + n)
}

/// Relies on `char::from_u32`: every value below the surrogate range is a
/// Unicode scalar and names exactly one character.
#[verifier::external_body]
fn char_from_u32(u: u32) -> (c: char)
    requires
        u < 0xD800,
    ensures
        c == u as char,
{
    char::from_u32(u).unwrap()
}

/// The value of an executable hexadecimal digit.
fn hex_val_exec(c: char) -> (r: u32)
    requires
        is_hex_char(c),
    ensures
        r == hex_val(c),
        r < 16,
{
    if '0' <= c && c <= '9' {
        c as u32 - '0' as u32
    } else {
        c as u32 - 'a' as u32 + 10
    }
}

/// Read the remainder of a JSON string token at offset `i`, the opening
/// quote already consumed.
fn scan_jstring_exec(v: &Vec<char>, i: usize) -> (r: Option<(String, usize)>)
    requires
        i <= v@.len(),
    ensures
        match r {
            Option::Some(p) => i <= p.1 <= v@.len() && scan_jstring(v@.skip(i as int), Seq::empty())
                == Option::Some((p.0@, v@.skip(p.1 as int))),
            Option::None => scan_jstring(v@.skip(i as int), Seq::empty()) is None,
        },
{
    let mut acc: Vec<char> = Vec::new();
    let mut j: usize = i;
    proof {
        assert(acc@ =~= Seq::<char>::empty());
    }
    loop
        invariant
            i <= j <= v@.len(),
            v.len() == v@.len(),
            scan_jstring(v@.skip(i as int), Seq::empty()) == scan_jstring(v@.skip(j as int), acc@),
        decreases v@.len() - j,
    {
        if j >= v.len() {
            assert(v@.skip(j as int).len() == 0);
            return Option::None;
        }
        let c = v[j];
        assert(v@.skip(j as int)[0] == c);
        if c == '"' {
            assert(v@.skip(j as int).drop_first() =~= v@.skip(j + 1));
            let s = string_from_chars(&acc);
            return Option::Some((s, j + 1));
        }
        if c == '\\' {
            if j + 1 >= v.len() {
                assert(v@.skip(j as int).len() < 2);
                return Option::None;
            }
            let e = v[j + 1];
            assert(v@.skip(j as int)[1] == e);
            if e == '"' {
                acc.push('"');
            } else if e == '\\' {
                acc.push('\\');
            } else if e == '/' {
                acc.push('/');
            } else if e == 'n' {
                acc.push('\n');
            } else if e == 'r' {
                acc.push('\r');
            } else if e == 't' {
                acc.push('\t');
            } else if e == 'u' {
                if v.len() - j <= 5 {
                    assert(v@.skip(j as int).len() < 6);
                    return Option::None;
                }
                let h0 = v[j + 2];
                let h1 = v[j + 3];
                let h2 = v[j + 4];
                let h3 = v[j + 5];
                proof {
                    assert(v@.skip(j as int)[2] == h0);
                    assert(v@.skip(j as int)[3] == h1);
                    assert(v@.skip(j as int)[4] == h2);
                    assert(v@.skip(j as int)[5] == h3);
                }
                let hex2 = ('0' <= h2 && h2 <= '9') || ('a' <= h2 && h2 <= 'f');
                let hex3 = ('0' <= h3 && h3 <= '9') || ('a' <= h3 && h3 <= 'f');
                if !(h0 == '0' && h1 == '0' && hex2 && hex3) {
                    return Option::None;
                }
                let value = 16 * hex_val_exec(h2) + hex_val_exec(h3);
                let ch = char_from_u32(value);
                acc.push(ch);
                assert(v@.skip(j as int).skip(6) =~= v@.skip(j + 6));
                j = j + 6;
                continue ;
            } else {
                return Option::None;
            }
            assert(v@.skip(j as int).skip(2) =~= v@.skip(j + 2));
            j = j + 2;
        } else {
            acc.push(c);
            assert(v@.skip(j as int).drop_first() =~= v@.skip(j + 1));
            j = j + 1;
        }
    }
}

/// Consume a complete JSON string token at offset `i`.
fn parse_jstring_exec(v: &Vec<char>, i: usize) -> (r: Option<(String, usize)>)
    requires
        i <= v@.len(),
    ensures
        match r {
            Option::Some(p) => i <= p.1 <= v@.len() && parse_jstring(v@.skip(i as int))
                == Option::Some((p.0@, v@.skip(p.1 as int))),
            Option::None => parse_jstring(v@.skip(i as int)) is None,
        },
{
    proof {
        reveal_strlit("\"");
        assert("\""@ =~= seq!['"']);
    }
    match expect_exec(v, i, "\"") {
        Option::Some(j) => scan_jstring_exec(v, j),
        Option::None => Option::None,
    }
}

/// Ten to the `n`th power.
pub open spec fn pow10(n: int) -> int
    decreases n,
{
    if n <= 0 {
        1
    } else {
        10 * pow10(n - 1)
    }
}

/// Powers of ten are positive.
proof fn lemma_pow10_pos(n: int)
    ensures
        pow10(n) >= 1,
    decreases n,
{
    if n > 0 {
        lemma_pow10_pos(n - 1);
        assert(pow10(n) == 10 * pow10(n - 1));
        assert(10 * pow10(n - 1) >= pow10(n - 1)) by (nonlinear_arith)
            requires
                pow10(n - 1) >= 1,
        ;
    }
}

/// Powers of ten are at least one and grow with the exponent.
proof fn lemma_pow10_le(a: int, b: int)
    requires
        0 <= a <= b,
    ensures
        1 <= pow10(a) <= pow10(b),
    decreases b - a,
{
    lemma_pow10_pos(a);
    if a < b {
        lemma_pow10_le(a, b - 1);
        assert(pow10(b) == 10 * pow10(b - 1));
        assert(pow10(b - 1) <= 10 * pow10(b - 1)) by (nonlinear_arith)
            requires
                pow10(b - 1) >= 1,
        ;
    }
}

/// Consume a run of at most nine decimal digits at offset `i`.
fn scan_number_exec(v: &Vec<char>, i: usize) -> (r: Option<(u64, usize)>)
    requires
        i <= v@.len(),
    ensures
        match r {
            Option::Some(p) => i <= p.1 <= v@.len() && scan_number(v@.skip(i as int), 0, 0)
                == Option::Some((p.0 as int, v@.skip(p.1 as int))),
            Option::None => scan_number(v@.skip(i as int), 0, 0) is None,
        },
{
    let mut acc: u64 = 0;
    let mut seen: usize = 0;
    let mut j: usize = i;
    proof {
        reveal_with_fuel(pow10, 11);
        assert(pow10(9) == 1000000000);
        assert(pow10(0) == 1);
    }
    loop
        invariant
            i <= j <= v@.len(),
            v.len() == v@.len(),
            seen <= 9,
            acc < pow10(seen as int),
            pow10(9) == 1000000000,
            scan_number(v@.skip(i as int), 0, 0) == scan_number(
                v@.skip(j as int),
                acc as int,
                seen as int,
            ),
        decreases v@.len() - j,
    {
        if j >= v.len() {
            assert(v@.skip(j as int).len() == 0);
            if seen == 0 {
                return Option::None;
            }
            return Option::Some((acc, j));
        }
        let c = v[j];
        assert(v@.skip(j as int)[0] == c);
        if '0' <= c && c <= '9' {
            if seen >= 9 {
                return Option::None;
            }
            let d = (c as u32 - '0' as u32) as u64;
            proof {
                lemma_pow10_le(seen + 1, 9);
            }
            acc = acc * 10 + d;
            seen = seen + 1;
            assert(v@.skip(j as int).drop_first() =~= v@.skip(j + 1));
            j = j + 1;
        } else {
            if seen == 0 {
                return Option::None;
            }
            return Option::Some((acc, j));
        }
    }
}

/// Consume a quoted field key and its colon at offset `i`. The quoted
/// form must spell exactly the bare key between two double quotes.
fn eat_key_exec(v: &Vec<char>, i: usize, quoted: &str, Ghost(key): Ghost<Seq<char>>) -> (r: Option<
    usize,
>)
    requires
        i <= v@.len(),
        quoted@ == seq!['"'] + key + seq!['"'],
    ensures
        match r {
            Option::Some(j) => i <= j <= v@.len() && eat_key(v@.skip(i as int), key)
                == Option::Some(v@.skip(j as int)),
            Option::None => eat_key(v@.skip(i as int), key) is None,
        },
{
    proof {
        reveal_strlit(":");
        assert(":"@ =~= seq![':']);
    }
    let a = skip_ws_exec(v, i);
    match expect_exec(v, a, quoted) {
        Option::None => Option::None,
        Option::Some(b) => {
            let c = skip_ws_exec(v, b);
            match expect_exec(v, c, ":") {
                Option::None => Option::None,
                Option::Some(d) => Option::Some(skip_ws_exec(v, d)),
            }
        },
    }
}

/// Consume the comma between fields at offset `i`.
fn eat_comma_exec(v: &Vec<char>, i: usize) -> (r: Option<usize>)
    requires
        i <= v@.len(),
    ensures
        match r {
            Option::Some(j) => i <= j <= v@.len() && eat_comma(v@.skip(i as int)) == Option::Some(
                v@.skip(j as int),
            ),
            Option::None => eat_comma(v@.skip(i as int)) is None,
        },
{
    proof {
        reveal_strlit(",");
        assert(","@ =~= seq![',']);
    }
    let a = skip_ws_exec(v, i);
    expect_exec(v, a, ",")
}

/// The vendor whose serialized tag `t` spells, if any.
fn vendor_of_tag_exec(t: &str) -> (r: Option<Vendor>)
    ensures
        r == vendor_of_tag(t@),
{
    if crate::text::str_eq(t, "Unknown") {
        Option::Some(Vendor::Unknown)
    } else if crate::text::str_eq(t, "AdoptOpenJdk") {
        Option::Some(Vendor::AdoptOpenJdk)
    } else if crate::text::str_eq(t, "Corretto") {
        Option::Some(Vendor::Corretto)
    } else if crate::text::str_eq(t, "GraalVmCe") {
        Option::Some(Vendor::GraalVmCe)
    } else if crate::text::str_eq(t, "Jetbrains") {
        Option::Some(Vendor::Jetbrains)
    } else if crate::text::str_eq(t, "Microsoft") {
        Option::Some(Vendor::Microsoft)
    } else if crate::text::str_eq(t, "OpenJdk") {
        Option::Some(Vendor::OpenJdk)
    } else if crate::text::str_eq(t, "Temurin") {
        Option::Some(Vendor::Temurin)
    } else if crate::text::str_eq(t, "Zulu") {
        Option::Some(Vendor::Zulu)
    } else {
        Option::None
    }
}

/// The architecture whose serialized tag `t` spells, if any.
fn arch_of_tag_exec(t: &str) -> (r: Option<Architecture>)
    ensures
        r == arch_of_tag(t@),
{
    if crate::text::str_eq(t, "X86") {
        Option::Some(Architecture::X86)
    } else if crate::text::str_eq(t, "X86_64") {
        Option::Some(Architecture::X86_64)
    } else if crate::text::str_eq(t, "Arm") {
        Option::Some(Architecture::Arm)
    } else if crate::text::str_eq(t, "Aarch64") {
        Option::Some(Architecture::Aarch64)
    } else if crate::text::str_eq(t, "Powerpc") {
        Option::Some(Architecture::Powerpc)
    } else if crate::text::str_eq(t, "Powerpc64") {
        Option::Some(Architecture::Powerpc64)
    } else {
        Option::None
    }
}

/// Consume the optional recognized vendor at offset `i`.
fn parse_vendor_value_exec(v: &Vec<char>, i: usize) -> (r: Option<(Option<Vendor>, usize)>)
    requires
        i <= v@.len(),
    ensures
        match r {
            Option::Some(p) => i <= p.1 <= v@.len() && parse_vendor_value(v@.skip(i as int))
                == Option::Some((p.0, v@.skip(p.1 as int))),
            Option::None => parse_vendor_value(v@.skip(i as int)) is None,
        },
{
    match expect_exec(v, i, "null") {
        Option::Some(j) => Option::Some((Option::None, j)),
        Option::None => match parse_jstring_exec(v, i) {
            Option::None => Option::None,
            Option::Some((t, j)) => match vendor_of_tag_exec(t.as_str()) {
                Option::None => Option::None,
                Option::Some(vd) => Option::Some((Option::Some(vd), j)),
            },
        },
    }
}

/// Consume a JSON boolean at offset `i`.
fn parse_bool_exec(v: &Vec<char>, i: usize) -> (r: Option<(bool, usize)>)
    requires
        i <= v@.len(),
    ensures
        match r {
            Option::Some(p) => i <= p.1 <= v@.len() && parse_bool(v@.skip(i as int))
                == Option::Some((p.0, v@.skip(p.1 as int))),
            Option::None => parse_bool(v@.skip(i as int)) is None,
        },
{
    match expect_exec(v, i, "true") {
        Option::Some(j) => Option::Some((true, j)),
        Option::None => match expect_exec(v, i, "false") {
            Option::Some(j) => Option::Some((false, j)),
            Option::None => Option::None,
        },
    }
}

/// What parsing a manifest file returns: the fields of the schema, in
/// their fixed order, with any amount of whitespace between tokens, and
/// nothing but whitespace after the closing brace.
pub open spec fn spec_parse_manifest(s: Seq<char>) -> Option<ManifestView> {
    let s0 = skip_ws(s);
    match expect(s0, seq!['{']) {
        Option::None => Option::None,
        Option::Some(s1) => match eat_key(s1, "id"@) {
            Option::None => Option::None,
            Option::Some(s2) => match parse_jstring(s2) {
                Option::None => Option::None,
                Option::Some((id, s3)) => match eat_comma(s3) {
                    Option::None => Option::None,
                    Option::Some(s4) => match eat_key(s4, "version"@) {
                        Option::None => Option::None,
                        Option::Some(s5) => match scan_number(s5, 0, 0) {
                            Option::None => Option::None,
                            Option::Some((n, s6)) => match JavaVersion::spec_from_number(n) {
                                Option::None => Option::None,
                                Option::Some(version) => match eat_comma(s6) {
                                    Option::None => Option::None,
                                    Option::Some(s7) => match eat_key(s7, "known_vendor"@) {
                                        Option::None => Option::None,
                                        Option::Some(s8) => match parse_vendor_value(s8) {
                                            Option::None => Option::None,
                                            Option::Some((known_vendor, s9)) => match eat_comma(
                                                s9,
                                            ) {
                                                Option::None => Option::None,
                                                Option::Some(s10) => spec_parse_manifest_tail(
                                                    s10,
                                                    id,
                                                    version,
                                                    known_vendor,
                                                ),
                                            },
                                        },
                                    },
                                },
                            },
                        },
                    },
                },
            },
        },
    }
}

/// The remaining fields of the manifest schema, from `vendor` on.
pub open spec fn spec_parse_manifest_tail(
    s: Seq<char>,
    id: Seq<char>,
    version: JavaVersion,
    known_vendor: Option<Vendor>,
) -> Option<ManifestView> {
    match eat_key(s, "vendor"@) {
        Option::None => Option::None,
        Option::Some(t1) => match parse_jstring(t1) {
            Option::None => Option::None,
            Option::Some((vendor, t2)) => match eat_comma(t2) {
                Option::None => Option::None,
                Option::Some(t3) => match eat_key(t3, "semver"@) {
                    Option::None => Option::None,
                    Option::Some(t4) => match parse_jstring(t4) {
                        Option::None => Option::None,
                        Option::Some((semver, t5)) => match eat_comma(t5) {
                            Option::None => Option::None,
                            Option::Some(t6) => match eat_key(t6, "architecture"@) {
                                Option::None => Option::None,
                                Option::Some(t7) => match parse_jstring(t7) {
                                    Option::None => Option::None,
                                    Option::Some((atag, t8)) => match arch_of_tag(atag) {
                                        Option::None => Option::None,
                                        Option::Some(architecture) => match eat_comma(t8) {
                                            Option::None => Option::None,
                                            Option::Some(t9) => spec_parse_manifest_end(
                                                t9,
                                                id,
                                                version,
                                                known_vendor,
                                                vendor,
                                                semver,
                                                architecture,
                                            ),
                                        },
                                    },
                                },
                            },
                        },
                    },
                },
            },
        },
    }
}

/// Parse a manifest file's text. Returns the manifest exactly when the
/// text fits the schema; any other text is rejected, and the cache treats
/// the file as corrupt and skips it.
#[verifier::rlimit(100)]
pub fn manifest_from_json(s: &str) -> (r: Option<Manifest>)
    ensures
        match r {
            Option::Some(m) => spec_parse_manifest(s@) == Option::Some(m@),
            Option::None => spec_parse_manifest(s@) is None,
        },
{
    let v = str_chars(s);
    proof {
        assert(v@.skip(0) =~= v@);
        reveal_strlit("{");
        assert("{"@ =~= seq!['{']);
        reveal_strlit("}");
        assert("}"@ =~= seq!['}']);
        reveal_strlit("\"id\"");
        reveal_strlit("id");
        assert("\"id\""@ =~= seq!['"'] + "id"@ + seq!['"']);
        reveal_strlit("\"version\"");
        reveal_strlit("version");
        assert("\"version\""@ =~= seq!['"'] + "version"@ + seq!['"']);
        reveal_strlit("\"known_vendor\"");
        reveal_strlit("known_vendor");
        assert("\"known_vendor\""@ =~= seq!['"'] + "known_vendor"@ + seq!['"']);
        reveal_strlit("\"vendor\"");
        reveal_strlit("vendor");
        assert("\"vendor\""@ =~= seq!['"'] + "vendor"@ + seq!['"']);
        reveal_strlit("\"semver\"");
        reveal_strlit("semver");
        assert("\"semver\""@ =~= seq!['"'] + "semver"@ + seq!['"']);
        reveal_strlit("\"architecture\"");
        reveal_strlit("architecture");
        assert("\"architecture\""@ =~= seq!['"'] + "architecture"@ + seq!['"']);
        reveal_strlit("\"install_dir\"");
        reveal_strlit("install_dir");
        assert("\"install_dir\""@ =~= seq!['"'] + "install_dir"@ + seq!['"']);
        reveal_strlit("\"is_jdk\"");
        reveal_strlit("is_jdk");
        assert("\"is_jdk\""@ =~= seq!['"'] + "is_jdk"@ + seq!['"']);
        reveal_strlit("\"hash\"");
        reveal_strlit("hash");
        assert("\"hash\""@ =~= seq!['"'] + "hash"@ + seq!['"']);
    }
    let j0 = skip_ws_exec(&v, 0);
    let j1 = match expect_exec(&v, j0, "{") {
        Option::Some(j) => j,
        Option::None => {
            return Option::None;
        },
    };
    let j2 = match eat_key_exec(&v, j1, "\"id\"", Ghost("id"@)) {
        Option::Some(j) => j,
        Option::None => {
            return Option::None;
        },
    };
    let (id, j3) = match parse_jstring_exec(&v, j2) {
        Option::Some(p) => p,
        Option::None => {
            return Option::None;
        },
    };
    let j4 = match eat_comma_exec(&v, j3) {
        Option::Some(j) => j,
        Option::None => {
            return Option::None;
        },
    };
    let j5 = match eat_key_exec(&v, j4, "\"version\"", Ghost("version"@)) {
        Option::Some(j) => j,
        Option::None => {
            return Option::None;
        },
    };
    let (vnum, j6) = match scan_number_exec(&v, j5) {
        Option::Some(p) => p,
        Option::None => {
            return Option::None;
        },
    };
    let version = match JavaVersion::from_number(vnum) {
        Option::Some(ver) => ver,
        Option::None => {
            return Option::None;
        },
    };
    let j7 = match eat_comma_exec(&v, j6) {
        Option::Some(j) => j,
        Option::None => {
            return Option::None;
        },
    };
    let j8 = match eat_key_exec(&v, j7, "\"known_vendor\"", Ghost("known_vendor"@)) {
        Option::Some(j) => j,
        Option::None => {
            return Option::None;
        },
    };
    let (known_vendor, j9) = match parse_vendor_value_exec(&v, j8) {
        Option::Some(p) => p,
        Option::None => {
            return Option::None;
        },
    };
    let j10 = match eat_comma_exec(&v, j9) {
        Option::Some(j) => j,
        Option::None => {
            return Option::None;
        },
    };
    let j11 = match eat_key_exec(&v, j10, "\"vendor\"", Ghost("vendor"@)) {
        Option::Some(j) => j,
        Option::None => {
            return Option::None;
        },
    };
    let (vendor, j12) = match parse_jstring_exec(&v, j11) {
        Option::Some(p) => p,
        Option::None => {
            return Option::None;
        },
    };
    let j13 = match eat_comma_exec(&v, j12) {
        Option::Some(j) => j,
        Option::None => {
            return Option::None;
        },
    };
    let j14 = match eat_key_exec(&v, j13, "\"semver\"", Ghost("semver"@)) {
        Option::Some(j) => j,
        Option::None => {
            return Option::None;
        },
    };
    let (semver, j15) = match parse_jstring_exec(&v, j14) {
        Option::Some(p) => p,
        Option::None => {
            return Option::None;
        },
    };
    let j16 = match eat_comma_exec(&v, j15) {
        Option::Some(j) => j,
        Option::None => {
            return Option::None;
        },
    };
    let j17 = match eat_key_exec(&v, j16, "\"architecture\"", Ghost("architecture"@)) {
        Option::Some(j) => j,
        Option::None => {
            return Option::None;
        },
    };
    let (atag, j18) = match parse_jstring_exec(&v, j17) {
        Option::Some(p) => p,
        Option::None => {
            return Option::None;
        },
    };
    let architecture = match arch_of_tag_exec(atag.as_str()) {
        Option::Some(a) => a,
        Option::None => {
            return Option::None;
        },
    };
    let j19 = match eat_comma_exec(&v, j18) {
        Option::Some(j) => j,
        Option::None => {
            return Option::None;
        },
    };
    let j20 = match eat_key_exec(&v, j19, "\"install_dir\"", Ghost("install_dir"@)) {
        Option::Some(j) => j,
        Option::None => {
            return Option::None;
        },
    };
    let (install_dir, j21) = match parse_jstring_exec(&v, j20) {
        Option::Some(p) => p,
        Option::None => {
            return Option::None;
        },
    };
    let j22 = match eat_comma_exec(&v, j21) {
        Option::Some(j) => j,
        Option::None => {
            return Option::None;
        },
    };
    let j23 = match eat_key_exec(&v, j22, "\"is_jdk\"", Ghost("is_jdk"@)) {
        Option::Some(j) => j,
        Option::None => {
            return Option::None;
        },
    };
    let (is_jdk, j24) = match parse_bool_exec(&v, j23) {
        Option::Some(p) => p,
        Option::None => {
            return Option::None;
        },
    };
    let j25 = match eat_comma_exec(&v, j24) {
        Option::Some(j) => j,
        Option::None => {
            return Option::None;
        },
    };
    let j26 = match eat_key_exec(&v, j25, "\"hash\"", Ghost("hash"@)) {
        Option::Some(j) => j,
        Option::None => {
            return Option::None;
        },
    };
    let (hash, j27) = match parse_jstring_exec(&v, j26) {
        Option::Some(p) => p,
        Option::None => {
            return Option::None;
        },
    };
    let j28 = skip_ws_exec(&v, j27);
    let j29 = match expect_exec(&v, j28, "}") {
        Option::Some(j) => j,
        Option::None => {
            return Option::None;
        },
    };
    let j30 = skip_ws_exec(&v, j29);
    if j30 < v.len() {
        assert(v@.skip(j30 as int).len() > 0);
        return Option::None;
    }
    assert(v@.skip(j30 as int).len() == 0);
    Option::Some(
        Manifest {
            id,
            version,
            known_vendor,
            vendor,
            semver,
            architecture,
            install_dir,
            is_jdk,
            hash,
        },
    )
}

/// The last fields of the manifest schema and the closing brace.
pub open spec fn spec_parse_manifest_end(
    s: Seq<char>,
    id: Seq<char>,
    version: JavaVersion,
    known_vendor: Option<Vendor>,
    vendor: Seq<char>,
    semver: Seq<char>,
    architecture: Architecture,
) -> Option<ManifestView> {
    match eat_key(s, "install_dir"@) {
        Option::None => Option::None,
        Option::Some(u1) => match parse_jstring(u1) {
            Option::None => Option::None,
            Option::Some((install_dir, u2)) => match eat_comma(u2) {
                Option::None => Option::None,
                Option::Some(u3) => match eat_key(u3, "is_jdk"@) {
                    Option::None => Option::None,
                    Option::Some(u4) => match parse_bool(u4) {
                        Option::None => Option::None,
                        Option::Some((is_jdk, u5)) => match eat_comma(u5) {
                            Option::None => Option::None,
                            Option::Some(u6) => match eat_key(u6, "hash"@) {
                                Option::None => Option::None,
                                Option::Some(u7) => match parse_jstring(u7) {
                                    Option::None => Option::None,
                                    Option::Some((hash, u8r)) => {
                                        let u9 = skip_ws(u8r);
                                        match expect(u9, seq!['}']) {
                                            Option::None => Option::None,
                                            Option::Some(u10) => if skip_ws(u10).len() == 0 {
                                                Option::Some(
                                                    ManifestView {
                                                        id,
                                                        version,
                                                        known_vendor,
                                                        vendor,
                                                        semver,
                                                        architecture,
                                                        install_dir,
                                                        is_jdk,
                                                        hash,
                                                    },
                                                )
                                            } else {
                                                Option::None
                                            },
                                        }
                                    },
                                },
                            },
                        },
                    },
                },
            },
        },
    }
}

} // verus!
