//! The data model of a Java installation: language versions, CPU
//! architectures, operating systems, vendors, and the install descriptor,
//! together with the parsers that normalize the raw strings a runtime
//! reports.

use vstd::prelude::*;
use vstd::string::*;
use crate::text::{
    is_digit_char, digit_val, dec_digits, dec_digit_char, str_chars, string_from_chars, str_eq,
    contains_seq, contains_str, u64_to_dec,
};

verus! {

/// A limited set of current and future Java language versions.
#[derive(Debug, PartialEq, Eq, Clone, Copy, Structural)]
pub enum JavaVersion {
    Java1_1,
    Java1_2,
    Java1_3,
    Java1_4,
    Java1_5,
    Java1_6,
    Java1_7,
    Java1_8,
    Java9,
    Java10,
    Java11,
    Java12,
    Java13,
    Java14,
    Java15,
    Java16,
    Java17,
    Java18,
    Java19,
    Java20,
    Java21,
    Java22,
    Java23,
    Java24,
    Java25,
    Java26,
    Java27,
    Java28,
    Java29,
    Java30,
    Java31,
    Java32,
    Java33,
    Java34,
    Java35,
    Java36,
    Java37,
    Java38,
    Java39,
    Java40,
}

/// Component values larger than every known version tag are capped here, so
/// that the executable parser can work in fixed-width arithmetic; the cap is
/// far above every tag this crate knows, so it never changes which version a
/// string parses to.
pub const VERSION_COMPONENT_CAP: u64 = 100000000;

/// One more digit accumulated into a dotted-version component, capped at
/// `VERSION_COMPONENT_CAP`.
pub open spec fn comp_step(v: int, d: int) -> int {
    if v * 10 + d > VERSION_COMPONENT_CAP as int {
        VERSION_COMPONENT_CAP as int
    } else {
        v * 10 + d
    }
}

/// A character that may appear in the leading version prefix.
pub open spec fn version_char(c: char) -> bool {
    is_digit_char(c) || c == '.'
}

/// Close the component under construction, if any.
pub open spec fn flush_component(vals: Seq<int>, cur: Option<int>) -> Seq<int> {
    match cur {
        Option::None => vals,
        Option::Some(v) => vals.push(v),
    }
}

/// The value of the component under construction, starting at 0.
pub open spec fn cur_val(cur: Option<int>) -> int {
    match cur {
        Option::None => 0,
        Option::Some(v) => v,
    }
}

/// The numeric components of the leading `[0-9.]*` prefix of `s`, reading
/// from position `i` with the components already closed and the one under
/// construction. Empty components (doubled or leading dots) are dropped.
pub open spec fn scan_components(s: Seq<char>, i: int, vals: Seq<int>, cur: Option<int>) -> Seq<
    int,
>
    decreases s.len() - i,
{
    if i < 0 || i >= s.len() || !version_char(s[i]) {
        flush_component(vals, cur)
    } else if s[i] == '.' {
        scan_components(s, i + 1, flush_component(vals, cur), Option::None)
    } else {
        scan_components(s, i + 1, vals, Option::Some(comp_step(cur_val(cur), digit_val(s[i]))))
    }
}

/// The major version tag denoted by a dotted version string: the first
/// component, or the second when the first equals 1 and a second exists.
pub open spec fn spec_major(s: Seq<char>) -> Option<int> {
    let vs = scan_components(s, 0, Seq::empty(), Option::None);
    if vs.len() == 0 {
        Option::None
    } else if vs.len() > 1 && vs[0] == 1 {
        Option::Some(vs[1])
    } else {
        Option::Some(vs[0])
    }
}

/// What `JavaVersion::parse` returns on the characters of its argument.
pub open spec fn spec_parse_version(s: Seq<char>) -> Option<JavaVersion> {
    match spec_major(s) {
        Option::None => Option::None,
        Option::Some(m) => JavaVersion::spec_from_number(m),
    }
}

impl JavaVersion {
    /// The major version tag this variant stands for.
    pub open spec fn spec_number(self) -> int {
        match self {
            JavaVersion::Java1_1 => 1,
            JavaVersion::Java1_2 => 2,
            JavaVersion::Java1_3 => 3,
            JavaVersion::Java1_4 => 4,
            JavaVersion::Java1_5 => 5,
            JavaVersion::Java1_6 => 6,
            JavaVersion::Java1_7 => 7,
            JavaVersion::Java1_8 => 8,
            JavaVersion::Java9 => 9,
            JavaVersion::Java10 => 10,
            JavaVersion::Java11 => 11,
            JavaVersion::Java12 => 12,
            JavaVersion::Java13 => 13,
            JavaVersion::Java14 => 14,
            JavaVersion::Java15 => 15,
            JavaVersion::Java16 => 16,
            JavaVersion::Java17 => 17,
            JavaVersion::Java18 => 18,
            JavaVersion::Java19 => 19,
            JavaVersion::Java20 => 20,
            JavaVersion::Java21 => 21,
            JavaVersion::Java22 => 22,
            JavaVersion::Java23 => 23,
            JavaVersion::Java24 => 24,
            JavaVersion::Java25 => 25,
            JavaVersion::Java26 => 26,
            JavaVersion::Java27 => 27,
            JavaVersion::Java28 => 28,
            JavaVersion::Java29 => 29,
            JavaVersion::Java30 => 30,
            JavaVersion::Java31 => 31,
            JavaVersion::Java32 => 32,
            JavaVersion::Java33 => 33,
            JavaVersion::Java34 => 34,
            JavaVersion::Java35 => 35,
            JavaVersion::Java36 => 36,
            JavaVersion::Java37 => 37,
            JavaVersion::Java38 => 38,
            JavaVersion::Java39 => 39,
            JavaVersion::Java40 => 40,
        }
    }

    /// The variant whose tag is `n`, if any.
    pub open spec fn spec_from_number(n: int) -> Option<JavaVersion> {
        if n == 1 {
            Option::Some(JavaVersion::Java1_1)
        } else if n == 2 {
            Option::Some(JavaVersion::Java1_2)
        } else if n == 3 {
            Option::Some(JavaVersion::Java1_3)
        } else if n == 4 {
            Option::Some(JavaVersion::Java1_4)
        } else if n == 5 {
            Option::Some(JavaVersion::Java1_5)
        } else if n == 6 {
            Option::Some(JavaVersion::Java1_6)
        } else if n == 7 {
            Option::Some(JavaVersion::Java1_7)
        } else if n == 8 {
            Option::Some(JavaVersion::Java1_8)
        } else if n == 9 {
            Option::Some(JavaVersion::Java9)
        } else if n == 10 {
            Option::Some(JavaVersion::Java10)
        } else if n == 11 {
            Option::Some(JavaVersion::Java11)
        } else if n == 12 {
            Option::Some(JavaVersion::Java12)
        } else if n == 13 {
            Option::Some(JavaVersion::Java13)
        } else if n == 14 {
            Option::Some(JavaVersion::Java14)
        } else if n == 15 {
            Option::Some(JavaVersion::Java15)
        } else if n == 16 {
            Option::Some(JavaVersion::Java16)
        } else if n == 17 {
            Option::Some(JavaVersion::Java17)
        } else if n == 18 {
            Option::Some(JavaVersion::Java18)
        } else if n == 19 {
            Option::Some(JavaVersion::Java19)
        } else if n == 20 {
            Option::Some(JavaVersion::Java20)
        } else if n == 21 {
            Option::Some(JavaVersion::Java21)
        } else if n == 22 {
            Option::Some(JavaVersion::Java22)
        } else if n == 23 {
            Option::Some(JavaVersion::Java23)
        } else if n == 24 {
            Option::Some(JavaVersion::Java24)
        } else if n == 25 {
            Option::Some(JavaVersion::Java25)
        } else if n == 26 {
            Option::Some(JavaVersion::Java26)
        } else if n == 27 {
            Option::Some(JavaVersion::Java27)
        } else if n == 28 {
            Option::Some(JavaVersion::Java28)
        } else if n == 29 {
            Option::Some(JavaVersion::Java29)
        } else if n == 30 {
            Option::Some(JavaVersion::Java30)
        } else if n == 31 {
            Option::Some(JavaVersion::Java31)
        } else if n == 32 {
            Option::Some(JavaVersion::Java32)
        } else if n == 33 {
            Option::Some(JavaVersion::Java33)
        } else if n == 34 {
            Option::Some(JavaVersion::Java34)
        } else if n == 35 {
            Option::Some(JavaVersion::Java35)
        } else if n == 36 {
            Option::Some(JavaVersion::Java36)
        } else if n == 37 {
            Option::Some(JavaVersion::Java37)
        } else if n == 38 {
            Option::Some(JavaVersion::Java38)
        } else if n == 39 {
            Option::Some(JavaVersion::Java39)
        } else if n == 40 {
            Option::Some(JavaVersion::Java40)
        } else {
            Option::None
        }
    }

    /// The major version tag as a number.
    pub fn number(&self) -> (n: u64)
        ensures
            n == self.spec_number(),
    {
        match self {
            JavaVersion::Java1_1 => 1,
            JavaVersion::Java1_2 => 2,
            JavaVersion::Java1_3 => 3,
            JavaVersion::Java1_4 => 4,
            JavaVersion::Java1_5 => 5,
            JavaVersion::Java1_6 => 6,
            JavaVersion::Java1_7 => 7,
            JavaVersion::Java1_8 => 8,
            JavaVersion::Java9 => 9,
            JavaVersion::Java10 => 10,
            JavaVersion::Java11 => 11,
            JavaVersion::Java12 => 12,
            JavaVersion::Java13 => 13,
            JavaVersion::Java14 => 14,
            JavaVersion::Java15 => 15,
            JavaVersion::Java16 => 16,
            JavaVersion::Java17 => 17,
            JavaVersion::Java18 => 18,
            JavaVersion::Java19 => 19,
            JavaVersion::Java20 => 20,
            JavaVersion::Java21 => 21,
            JavaVersion::Java22 => 22,
            JavaVersion::Java23 => 23,
            JavaVersion::Java24 => 24,
            JavaVersion::Java25 => 25,
            JavaVersion::Java26 => 26,
            JavaVersion::Java27 => 27,
            JavaVersion::Java28 => 28,
            JavaVersion::Java29 => 29,
            JavaVersion::Java30 => 30,
            JavaVersion::Java31 => 31,
            JavaVersion::Java32 => 32,
            JavaVersion::Java33 => 33,
            JavaVersion::Java34 => 34,
            JavaVersion::Java35 => 35,
            JavaVersion::Java36 => 36,
            JavaVersion::Java37 => 37,
            JavaVersion::Java38 => 38,
            JavaVersion::Java39 => 39,
            JavaVersion::Java40 => 40,
        }
    }

    /// The variant whose tag is `n`, if any.
    pub fn from_number(n: u64) -> (r: Option<JavaVersion>)
        ensures
            r == Self::spec_from_number(n as int),
    {
        if n == 0 || n > 40 {
            return Option::None;
        }
        let all = [
            JavaVersion::Java1_1,
            JavaVersion::Java1_2,
            JavaVersion::Java1_3,
            JavaVersion::Java1_4,
            JavaVersion::Java1_5,
            JavaVersion::Java1_6,
            JavaVersion::Java1_7,
            JavaVersion::Java1_8,
            JavaVersion::Java9,
            JavaVersion::Java10,
            JavaVersion::Java11,
            JavaVersion::Java12,
            JavaVersion::Java13,
            JavaVersion::Java14,
            JavaVersion::Java15,
            JavaVersion::Java16,
            JavaVersion::Java17,
            JavaVersion::Java18,
            JavaVersion::Java19,
            JavaVersion::Java20,
            JavaVersion::Java21,
            JavaVersion::Java22,
            JavaVersion::Java23,
            JavaVersion::Java24,
            JavaVersion::Java25,
            JavaVersion::Java26,
            JavaVersion::Java27,
            JavaVersion::Java28,
            JavaVersion::Java29,
            JavaVersion::Java30,
            JavaVersion::Java31,
            JavaVersion::Java32,
            JavaVersion::Java33,
            JavaVersion::Java34,
            JavaVersion::Java35,
            JavaVersion::Java36,
            JavaVersion::Java37,
            JavaVersion::Java38,
            JavaVersion::Java39,
            JavaVersion::Java40,
        ];
        let idx = (n - 1) as usize;
        let v = all[idx];
        assert(Self::spec_from_number(n as int) == Option::Some(v));
        Option::Some(v)
    }

    /// Parse a Java version from a dotted version string such as
    /// `"1.8.0_382"` or `"17.0.10+7"`.
    pub fn parse(version: &str) -> (r: Option<JavaVersion>)
        ensures
            r == spec_parse_version(version@),
    {
        let v = str_chars(version);
        let ghost s = version@;
        let mut vals: Vec<u64> = Vec::new();
        let mut cur: Option<u64> = Option::None;
        let mut i: usize = 0;
        assert(vals@.map_values(|x: u64| x as int) =~= Seq::<int>::empty());
        loop
            invariant
                v@ == s,
                i <= v.len(),
                v.len() == s.len(),
                forall|k: int| 0 <= k < vals@.len() ==> vals@[k] <= VERSION_COMPONENT_CAP,
                cur matches Option::Some(c) ==> c <= VERSION_COMPONENT_CAP,
                scan_components(s, 0, Seq::empty(), Option::None) == scan_components(
                    s,
                    i as int,
                    vals@.map_values(|x: u64| x as int),
                    spec_opt_int(cur),
                ),
            ensures
                i as int >= s.len() || !version_char(s[i as int]),
                forall|k: int| 0 <= k < vals@.len() ==> vals@[k] <= VERSION_COMPONENT_CAP,
                cur matches Option::Some(c) ==> c <= VERSION_COMPONENT_CAP,
                scan_components(s, 0, Seq::empty(), Option::None) == scan_components(
                    s,
                    i as int,
                    vals@.map_values(|x: u64| x as int),
                    spec_opt_int(cur),
                ),
            decreases v.len() - i,
        {
            if i >= v.len() {
                break ;
            }
            let c = v[i];
            if c == '.' {
                match cur {
                    Option::Some(x) => {
                        let ghost old_vals = vals@;
                        vals.push(x);
                        assert(vals@.map_values(|y: u64| y as int) =~= old_vals.map_values(
                            |y: u64| y as int,
                        ).push(x as int));
                    },
                    Option::None => {},
                }
                cur = Option::None;
                i = i + 1;
            } else if '0' <= c && c <= '9' {
                let d = (c as u32 - '0' as u32) as u64;
                let base = match cur {
                    Option::Some(x) => x,
                    Option::None => 0,
                };
                let stepped = base * 10 + d;
                let capped = if stepped > VERSION_COMPONENT_CAP {
                    VERSION_COMPONENT_CAP
                } else {
                    stepped
                };
                assert(capped as int == comp_step(cur_val(spec_opt_int(cur)), digit_val(s[i as int])));
                cur = Option::Some(capped);
                i = i + 1;
            } else {
                assert(!version_char(s[i as int]));
                break ;
            }
        }
        assert(scan_components(s, 0, Seq::empty(), Option::None) == flush_component(
            vals@.map_values(|x: u64| x as int),
            spec_opt_int(cur),
        ));
        match cur {
            Option::Some(x) => {
                let ghost old_vals = vals@;
                vals.push(x);
                assert(vals@.map_values(|y: u64| y as int) =~= old_vals.map_values(
                    |y: u64| y as int,
                ).push(x as int));
            },
            Option::None => {},
        }
        if vals.len() == 0 {
            return Option::None;
        }
        let major = if vals.len() > 1 && vals[0] == 1 {
            vals[1]
        } else {
            vals[0]
        };
        Self::from_number(major)
    }

    /// The decimal form of the major version tag, as used in vendor catalog
    /// URLs.
    pub fn short_string(&self) -> (s: String)
        ensures
            s@ == dec_digits(self.spec_number()),
    {
        let v = u64_to_dec(self.number());
        string_from_chars(&v)
    }
}

/// The `int` value of an executable component accumulator.
pub open spec fn spec_opt_int(cur: Option<u64>) -> Option<int> {
    match cur {
        Option::None => Option::None,
        Option::Some(x) => Option::Some(x as int),
    }
}

/// Looking a version tag up by its own number gives that tag back.
pub proof fn lemma_from_number_inverse(v: JavaVersion)
    ensures
        JavaVersion::spec_from_number(v.spec_number()) == Option::Some(v),
{
}

/// Parsing the decimal string form of a version tag yields that tag back:
/// version parsing is idempotent through the string form.
pub proof fn lemma_parse_short_string(v: JavaVersion)
    ensures
        spec_parse_version(dec_digits(v.spec_number())) == Option::Some(v),
{
    reveal_with_fuel(dec_digits, 3);
    reveal_with_fuel(scan_components, 4);
    let n = v.spec_number();
    lemma_from_number_inverse(v);
    if n < 10 {
        let s = dec_digits(n);
        assert(s =~= seq![dec_digit_char(n)]);
        assert(scan_components(s, 0, Seq::empty(), Option::None) =~= seq![n]);
    } else {
        let q = n / 10;
        let r = n % 10;
        let s = dec_digits(n);
        assert(s =~= seq![dec_digit_char(q), dec_digit_char(r)]);
        assert(comp_step(comp_step(0, q), r) == n);
        assert(scan_components(s, 0, Seq::empty(), Option::None) =~= seq![n]);
    }
}

/// A limited set of CPU architectures, under the names Java runtimes and
/// Rust use for them.
#[derive(Debug, PartialEq, Eq, Clone, Copy, Structural)]
pub enum Architecture {
    X86,
    X86_64,
    Arm,
    Aarch64,
    Powerpc,
    Powerpc64,
}

/// What `Architecture::parse` returns on the characters of its argument.
/// The alias set is matched exactly and case-sensitively.
pub open spec fn spec_parse_arch(s: Seq<char>) -> Option<Architecture> {
    if s == "x86"@ || s == "i386"@ {
        Option::Some(Architecture::X86)
    } else if s == "x86_64"@ || s == "x64"@ || s == "amd64"@ {
        Option::Some(Architecture::X86_64)
    } else if s == "arm"@ {
        Option::Some(Architecture::Arm)
    } else if s == "aarch64"@ {
        Option::Some(Architecture::Aarch64)
    } else if s == "powerpc"@ || s == "ppc"@ {
        Option::Some(Architecture::Powerpc)
    } else if s == "powerpc64"@ || s == "ppc64"@ {
        Option::Some(Architecture::Powerpc64)
    } else {
        Option::None
    }
}

impl Architecture {
    /// Parses an architecture from the given string.
    ///
    /// Most of these aliases exist to cover the architecture names Java
    /// runtimes report alongside the names Rust standardized on.
    pub fn parse(arch: &str) -> (r: Option<Architecture>)
        ensures
            r == spec_parse_arch(arch@),
    {
        if str_eq(arch, "x86") || str_eq(arch, "i386") {
            Option::Some(Architecture::X86)
        } else if str_eq(arch, "x86_64") || str_eq(arch, "x64") || str_eq(arch, "amd64") {
            Option::Some(Architecture::X86_64)
        } else if str_eq(arch, "arm") {
            Option::Some(Architecture::Arm)
        } else if str_eq(arch, "aarch64") {
            Option::Some(Architecture::Aarch64)
        } else if str_eq(arch, "powerpc") || str_eq(arch, "ppc") {
            Option::Some(Architecture::Powerpc)
        } else if str_eq(arch, "powerpc64") || str_eq(arch, "ppc64") {
            Option::Some(Architecture::Powerpc64)
        } else {
            Option::None
        }
    }
}

/// A limited set of operating systems.
#[derive(Debug, PartialEq, Eq, Clone, Copy, Structural)]
pub enum OS {
    Linux,
    MacOS,
    Windows,
}

/// The set of vendors this crate can recognize from a raw vendor string.
#[derive(Debug, PartialEq, Eq, Clone, Copy, Structural)]
pub enum Vendor {
    Unknown,
    AdoptOpenJdk,
    Corretto,
    GraalVmCe,
    Jetbrains,
    Microsoft,
    OpenJdk,
    Temurin,
    Zulu,
}

/// What `Vendor::parse` returns on the characters of its argument: the
/// first recognized substring wins, in this fixed order.
pub open spec fn spec_parse_vendor(s: Seq<char>) -> Option<Vendor> {
    if contains_seq(s, "AdoptOpenJdk"@) || contains_seq(s, "AdoptOpenJDK"@) {
        Option::Some(Vendor::AdoptOpenJdk)
    } else if contains_seq(s, "Amazon.com"@) {
        Option::Some(Vendor::Corretto)
    } else if contains_seq(s, "Eclipse"@) || contains_seq(s, "Temurin"@) {
        Option::Some(Vendor::Temurin)
    } else if contains_seq(s, "GraalVM Community"@) || contains_seq(s, "GraalVmCe"@) {
        Option::Some(Vendor::GraalVmCe)
    } else if contains_seq(s, "JetBrains"@) {
        Option::Some(Vendor::Jetbrains)
    } else if contains_seq(s, "Microsoft"@) {
        Option::Some(Vendor::Microsoft)
    } else if contains_seq(s, "Oracle Corporation"@) || contains_seq(s, "Sun Microsystems Inc"@) {
        Option::Some(Vendor::OpenJdk)
    } else if contains_seq(s, "Azul Systems"@) {
        Option::Some(Vendor::Zulu)
    } else {
        Option::None
    }
}

impl Vendor {
    /// Recognize a vendor by substring matching against the raw vendor
    /// string a runtime reports.
    pub fn parse(vendor: &str) -> (r: Option<Vendor>)
        ensures
            r == spec_parse_vendor(vendor@),
    {
        if contains_str(vendor, "AdoptOpenJdk") || contains_str(vendor, "AdoptOpenJDK") {
            Option::Some(Vendor::AdoptOpenJdk)
        } else if contains_str(vendor, "Amazon.com") {
            Option::Some(Vendor::Corretto)
        } else if contains_str(vendor, "Eclipse") || contains_str(vendor, "Temurin") {
            Option::Some(Vendor::Temurin)
        } else if contains_str(vendor, "GraalVM Community") || contains_str(vendor, "GraalVmCe") {
            Option::Some(Vendor::GraalVmCe)
        } else if contains_str(vendor, "JetBrains") {
            Option::Some(Vendor::Jetbrains)
        } else if contains_str(vendor, "Microsoft") {
            Option::Some(Vendor::Microsoft)
        } else if contains_str(vendor, "Oracle Corporation") || contains_str(
            vendor,
            "Sun Microsystems Inc",
        ) {
            Option::Some(Vendor::OpenJdk)
        } else if contains_str(vendor, "Azul Systems") {
            Option::Some(Vendor::Zulu)
        } else {
            Option::None
        }
    }
}

/// Join a path and a relative component with a `/` separator, avoiding a
/// doubled separator. Paths are modelled as plain strings throughout this
/// crate.
pub open spec fn spec_path_join(a: Seq<char>, b: Seq<char>) -> Seq<char> {
    if a.len() == 0 {
        b
    } else if a[a.len() - 1] == '/' {
        a + b
    } else {
        a + "/"@ + b
    }
}

/// Executable path join matching `spec_path_join`.
pub fn path_join(a: &str, b: &str) -> (r: String)
    ensures
        r@ == spec_path_join(a@, b@),
{
    let n = a.unicode_len();
    let mut s = a.to_owned();
    if n == 0 {
        let r = b.to_owned();
        return r;
    }
    if a.get_char(n - 1) != '/' {
        s.append("/");
    }
    s.append(b);
    assert(a@[a@.len() - 1] != '/' ==> s@ =~= a@ + "/"@ + b@);
    s
}

/// A separator character inside a reported `java.home` path.
pub open spec fn is_path_sep(c: char) -> bool {
    c == '/' || c == '\\'
}

/// The index just past the last separator of `s`, or 0 when `s` has none.
pub open spec fn spec_after_last_sep(s: Seq<char>) -> int
    decreases s.len(),
{
    if s.len() == 0 {
        0
    } else if is_path_sep(s[s.len() - 1]) {
        s.len() as int
    } else {
        spec_after_last_sep(s.drop_last())
    }
}

/// The last path component of `s`: everything after the last separator.
pub open spec fn spec_file_name(s: Seq<char>) -> Seq<char> {
    s.subrange(spec_after_last_sep(s), s.len() as int)
}

/// The prefix of `s` before the last separator; empty when `s` has no
/// separator.
pub open spec fn spec_parent_dir(s: Seq<char>) -> Seq<char> {
    if spec_after_last_sep(s) == 0 {
        Seq::empty()
    } else {
        s.subrange(0, spec_after_last_sep(s) - 1)
    }
}

/// The index just past the last separator, found by scanning from the end.
fn after_last_sep(p: &Vec<char>) -> (r: usize)
    ensures
        r == spec_after_last_sep(p@),
        r <= p@.len(),
{
    let mut i: usize = p.len();
    assert(p@.subrange(0, p@.len() as int) =~= p@);
    loop
        invariant
            i <= p@.len(),
            spec_after_last_sep(p@) == spec_after_last_sep(p@.subrange(0, i as int)),
        ensures
            i == spec_after_last_sep(p@),
        decreases i,
    {
        if i == 0 {
            assert(spec_after_last_sep(p@.subrange(0, 0)) == 0) by {
                assert(p@.subrange(0, 0) =~= Seq::<char>::empty());
            }
            break ;
        }
        let c = p[i - 1];
        assert(p@.subrange(0, i as int)[i - 1] == c);
        if c == '/' || c == '\\' {
            break ;
        }
        assert(p@.subrange(0, i as int).drop_last() =~= p@.subrange(0, i - 1));
        i = i - 1;
    }
    i
}

/// The last path component of `p`.
pub fn path_file_name(p: &str) -> (r: String)
    ensures
        r@ == spec_file_name(p@),
{
    let v = str_chars(p);
    let start = after_last_sep(&v);
    let mut out: Vec<char> = Vec::new();
    let mut i: usize = start;
    assert(out@ =~= p@.subrange(start as int, start as int));
    while i < v.len()
        invariant
            start <= i <= v@.len(),
            v@ == p@,
            start == spec_after_last_sep(p@),
            out@ == p@.subrange(start as int, i as int),
        decreases v@.len() - i,
    {
        out.push(v[i]);
        i = i + 1;
        assert(out@ =~= p@.subrange(start as int, i as int));
    }
    string_from_chars(&out)
}

/// The prefix of `p` before the last separator, or `None` when `p` has no
/// separator at all.
pub fn path_parent_dir(p: &str) -> (r: Option<String>)
    ensures
        match r {
            Option::Some(q) => spec_after_last_sep(p@) != 0 && q@ == spec_parent_dir(p@),
            Option::None => spec_after_last_sep(p@) == 0,
        },
{
    let v = str_chars(p);
    let start = after_last_sep(&v);
    if start == 0 {
        return Option::None;
    }
    let mut out: Vec<char> = Vec::new();
    let mut i: usize = 0;
    assert(out@ =~= p@.subrange(0, 0));
    while i < start - 1
        invariant
            1 <= start <= v@.len(),
            i <= start - 1,
            v@ == p@,
            start == spec_after_last_sep(p@),
            out@ == p@.subrange(0, i as int),
        decreases start - i,
    {
        out.push(v[i]);
        i = i + 1;
        assert(out@ =~= p@.subrange(0, i as int));
    }
    Option::Some(string_from_chars(&out))
}

/// The authoritative record of one discovered Java installation.
#[derive(Debug, Clone)]
pub struct JavaInstall {
    pub lang_version: JavaVersion,
    pub java_home: String,
    pub known_vendor: Option<Vendor>,
    pub vendor: String,
    pub impl_name: String,
    pub impl_version: String,
    pub runtime_name: String,
    pub runtime_version: String,
    pub architecture: Architecture,
    pub is_openj9: bool,
    pub is_jdk: bool,
}

impl JavaInstall {
    /// The fields of a well-formed install agree with the raw strings they
    /// were derived from.
    pub open spec fn wf(self) -> bool {
        &&& Option::Some(self.lang_version) == spec_parse_version(self.impl_version@)
        &&& self.known_vendor == spec_parse_vendor(self.vendor@)
        &&& self.is_openj9 == contains_seq(self.impl_name@, "j9"@)
    }

    /// Build an install record from the raw property strings of a probed
    /// runtime. Returns `None` exactly when the version string has no
    /// recognizable major version. Whether the install is a JDK is
    /// established by the caller, which knows the filesystem.
    pub fn new(
        install_dir: String,
        vendor: String,
        impl_name: String,
        impl_version: String,
        runtime_name: String,
        runtime_version: String,
        architecture: Architecture,
        is_jdk: bool,
    ) -> (r: Option<JavaInstall>)
        ensures
            match r {
                Option::Some(inst) => {
                    &&& spec_parse_version(impl_version@) is Some
                    &&& inst.wf()
                    &&& inst.lang_version == spec_parse_version(impl_version@)->Some_0
                    &&& inst.java_home == install_dir
                    &&& inst.vendor == vendor
                    &&& inst.impl_name == impl_name
                    &&& inst.impl_version == impl_version
                    &&& inst.runtime_name == runtime_name
                    &&& inst.runtime_version == runtime_version
                    &&& inst.architecture == architecture
                    &&& inst.is_jdk == is_jdk
                },
                Option::None => spec_parse_version(impl_version@) is None,
            },
    {
        let lang_version = match JavaVersion::parse(impl_version.as_str()) {
            Option::Some(v) => v,
            Option::None => {
                return Option::None;
            },
        };
        let known_vendor = Vendor::parse(vendor.as_str());
        let is_openj9 = contains_str(impl_name.as_str(), "j9");
        Option::Some(
            JavaInstall {
                lang_version,
                java_home: install_dir,
                known_vendor,
                vendor,
                impl_name,
                impl_version,
                runtime_name,
                runtime_version,
                architecture,
                is_openj9,
                is_jdk,
            },
        )
    }

    /// The directory that holds `bin` for a given installation directory,
    /// resolving the platform-specific offset from the installation root.
    pub open spec fn spec_home_dir(install_dir: Seq<char>, os: OS) -> Seq<char> {
        if os == OS::MacOS {
            spec_path_join(install_dir, "Contents/Home"@)
        } else {
            install_dir
        }
    }

    /// Retrieves the potentially platform-specific directory the `bin`
    /// directory is expected to reside in.
    pub fn get_home_dir(install_dir: &str, os: OS) -> (r: String)
        ensures
            r@ == Self::spec_home_dir(install_dir@, os),
    {
        if matches!(os, OS::MacOS) {
            path_join(install_dir, "Contents/Home")
        } else {
            install_dir.to_owned()
        }
    }

    /// Retrieves the bin directory for a given installation directory.
    pub fn get_bin_dir(install_dir: &str, os: OS) -> (r: String)
        ensures
            r@ == spec_path_join(Self::spec_home_dir(install_dir@, os), "bin"@),
    {
        let home = Self::get_home_dir(install_dir, os);
        path_join(home.as_str(), "bin")
    }

    /// The name of an executable under `bin`, with the platform extension.
    pub open spec fn spec_executable(home_dir: Seq<char>, executable: Seq<char>, os: OS) -> Seq<
        char,
    > {
        let name = if os == OS::Windows {
            executable + ".exe"@
        } else {
            executable
        };
        spec_path_join(spec_path_join(home_dir, "bin"@), name)
    }

    /// Get the path for an executable within a given home directory; the
    /// platform-specific file extension is appended automatically.
    pub fn get_executable(home_dir: &str, executable: &str, os: OS) -> (r: String)
        ensures
            r@ == Self::spec_executable(home_dir@, executable@, os),
    {
        let bin = path_join(home_dir, "bin");
        if matches!(os, OS::Windows) {
            let mut name = executable.to_owned();
            name.append(".exe");
            path_join(bin.as_str(), name.as_str())
        } else {
            path_join(bin.as_str(), executable)
        }
    }

    /// The `java` executable path for the given home directory; on Windows
    /// `javaw` may be selected instead to suppress console windows.
    pub open spec fn spec_java_executable(home_dir: Seq<char>, use_javaw: bool, os: OS) -> Seq<
        char,
    > {
        if os == OS::Windows && use_javaw {
            Self::spec_executable(home_dir, "javaw"@, os)
        } else {
            Self::spec_executable(home_dir, "java"@, os)
        }
    }

    /// Retrieves the `java` executable path for the given home directory.
    pub fn get_java_executable(home_dir: &str, use_javaw: bool, os: OS) -> (r: String)
        ensures
            r@ == Self::spec_java_executable(home_dir@, use_javaw, os),
    {
        if matches!(os, OS::Windows) && use_javaw {
            Self::get_executable(home_dir, "javaw", os)
        } else {
            Self::get_executable(home_dir, "java", os)
        }
    }

    /// Probe the runtime at `executable` for its properties and build an
    /// install record from them. The reported `java.home` is normalized: a
    /// home ending in `jre` whose parent holds a `bin` directory is
    /// rewritten to the parent, folding a JRE nested in a JDK onto the
    /// JDK. Any missing or unparseable property yields `None`; no partial
    /// record is returned.
    pub fn parse(env: &dyn crate::host::ScanEnv, executable: &str) -> (r: Option<JavaInstall>)
        ensures
            r matches Option::Some(inst) ==> inst.wf(),
    {
        let names = crate::extract::probe_property_names();
        let props = match crate::extract::extract_java_properties(env, executable, &names) {
            Option::Some(p) => p,
            Option::None => {
                return Option::None;
            },
        };
        let java_home = match crate::extract::prop_get(&props, "java.home") {
            Option::Some(v) => v,
            Option::None => {
                return Option::None;
            },
        };
        let fname = path_file_name(java_home.as_str());
        let java_home_real: String;
        if str_eq(fname.as_str(), "jre") {
            match path_parent_dir(java_home.as_str()) {
                Option::Some(parent) => {
                    let bin = path_join(parent.as_str(), "bin");
                    if env.dir_exists(bin.as_str()) {
                        java_home_real = parent;
                    } else {
                        java_home_real = java_home;
                    }
                },
                Option::None => {
                    return Option::None;
                },
            }
        } else {
            java_home_real = java_home;
        }
        let vendor = match crate::extract::prop_get(&props, "java.vendor") {
            Option::Some(v) => v,
            Option::None => {
                return Option::None;
            },
        };
        let impl_name = match crate::extract::prop_get(&props, "java.vm.name") {
            Option::Some(v) => v,
            Option::None => {
                return Option::None;
            },
        };
        let impl_version = match crate::extract::prop_get(&props, "java.version") {
            Option::Some(v) => v,
            Option::None => {
                return Option::None;
            },
        };
        let runtime_name = match crate::extract::prop_get(&props, "java.runtime.name") {
            Option::Some(v) => v,
            Option::None => {
                return Option::None;
            },
        };
        let runtime_version = match crate::extract::prop_get(&props, "java.runtime.version") {
            Option::Some(v) => v,
            Option::None => {
                return Option::None;
            },
        };
        let arch_raw = match crate::extract::prop_get(&props, "os.arch") {
            Option::Some(v) => v,
            Option::None => {
                return Option::None;
            },
        };
        let architecture = match Architecture::parse(arch_raw.as_str()) {
            Option::Some(a) => a,
            Option::None => {
                return Option::None;
            },
        };
        let os = match env.os() {
            Option::Some(o) => o,
            Option::None => {
                return Option::None;
            },
        };
        let javac = Self::get_executable(java_home_real.as_str(), "javac", os);
        let is_jdk = env.file_exists(javac.as_str());
        Self::new(
            java_home_real,
            vendor,
            impl_name,
            impl_version,
            runtime_name,
            runtime_version,
            architecture,
            is_jdk,
        )
    }
}

} // verus!
