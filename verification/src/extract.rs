//! The property extractor: runs the embedded probe class inside a
//! candidate runtime (through the host port) and parses its `name=value`
//! output, line by line. Each non-empty line is split at its first `=`;
//! lines without a `=` are dropped. No partial results survive a failed
//! probe: a runtime that cannot be probed yields nothing.

use vstd::prelude::*;
use vstd::string::*;
use crate::host::ScanEnv;
use crate::text::string_from_chars;

verus! {

/// The views of a sequence of key/value string pairs.
pub open spec fn pairs_view(ps: Seq<(String, String)>) -> Seq<(Seq<char>, Seq<char>)>
    decreases ps,
{
    if ps.len() == 0 {
        Seq::empty()
    } else {
        seq![(ps[0].0@, ps[0].1@)] + pairs_view(ps.drop_first())
    }
}

/// `pairs_view` maps the views over the elements, pointwise.
pub proof fn lemma_pairs_view(ps: Seq<(String, String)>)
    ensures
        pairs_view(ps).len() == ps.len(),
        forall|i: int|
            0 <= i < ps.len() ==> #[trigger] pairs_view(ps)[i] == (ps[i].0@, ps[i].1@),
    decreases ps.len(),
{
    if ps.len() > 0 {
        lemma_pairs_view(ps.drop_first());
        assert forall|i: int| 0 <= i < ps.len() implies #[trigger] pairs_view(ps)[i] == (
            ps[i].0@,
            ps[i].1@,
        ) by {
            if i > 0 {
                assert(pairs_view(ps)[i] == pairs_view(ps.drop_first())[i - 1]);
                assert(ps.drop_first()[i - 1] == ps[i]);
            }
        }
    }
}

/// The index of the first `=` in `l`, or -1 when `l` has none.
pub open spec fn first_eq(l: Seq<char>) -> int
    decreases l.len(),
{
    if l.len() == 0 {
        -1
    } else if l[0] == '=' {
        0
    } else {
        let r = first_eq(l.drop_first());
        if r < 0 {
            -1
        } else {
            r + 1
        }
    }
}

/// `first_eq` is the first index holding `=`, or -1 when none does.
pub proof fn lemma_first_eq(l: Seq<char>)
    ensures
        first_eq(l) == -1 ==> forall|j: int| 0 <= j < l.len() ==> l[j] != '=',
        first_eq(l) != -1 ==> 0 <= first_eq(l) < l.len() && l[first_eq(l)] == '=' && forall|
            j: int,
        |
            0 <= j < first_eq(l) ==> l[j] != '=',
    decreases l.len(),
{
    if l.len() > 0 && l[0] != '=' {
        let d = l.drop_first();
        lemma_first_eq(d);
        let r = first_eq(d);
        if r < 0 {
            assert forall|j: int| 0 <= j < l.len() implies l[j] != '=' by {
                if j > 0 {
                    assert(d[j - 1] == l[j]);
                }
            }
        } else {
            assert(first_eq(l) == r + 1);
            assert(l[r + 1] == d[r]);
            assert forall|j: int| 0 <= j < r + 1 implies l[j] != '=' by {
                if j > 0 {
                    assert(d[j - 1] == l[j]);
                }
            }
        }
    }
}

/// One finished output line folded into the accumulated pairs: a trailing
/// carriage return is stripped, empty lines and lines without `=` are
/// dropped, and the rest split at their first `=`.
pub open spec fn finish_line(
    acc: Seq<(Seq<char>, Seq<char>)>,
    line: Seq<char>,
) -> Seq<(Seq<char>, Seq<char>)> {
    let l = if line.len() > 0 && line.last() == '\r' {
        line.drop_last()
    } else {
        line
    };
    if l.len() == 0 {
        acc
    } else {
        let k = first_eq(l);
        if k < 0 {
            acc
        } else {
            acc.push((l.take(k), l.skip(k + 1)))
        }
    }
}

/// The probe output read from position `i`, with the pairs finished so far
/// and the line under construction.
pub open spec fn props_scan(
    s: Seq<char>,
    i: int,
    acc: Seq<(Seq<char>, Seq<char>)>,
    line: Seq<char>,
) -> Seq<(Seq<char>, Seq<char>)>
    decreases s.len() - i,
{
    if i < 0 || i >= s.len() {
        finish_line(acc, line)
    } else if s[i] == '\n' {
        props_scan(s, i + 1, finish_line(acc, line), Seq::empty())
    } else {
        props_scan(s, i + 1, acc, line.push(s[i]))
    }
}

/// The key/value pairs held in a probe's standard output.
pub open spec fn spec_props_of(s: Seq<char>) -> Seq<(Seq<char>, Seq<char>)> {
    props_scan(s, 0, Seq::empty(), Seq::empty())
}

/// Fold one finished line into the accumulated pairs.
fn finish_line_exec(acc: &mut Vec<(String, String)>, line: &Vec<char>)
    ensures
        pairs_view(final(acc)@) == finish_line(pairs_view(old(acc)@), line@),
{
    let ghost accv = pairs_view(acc@);
    // Strip one trailing carriage return.
    let n = if line.len() > 0 && line[line.len() - 1] == '\r' {
        line.len() - 1
    } else {
        line.len()
    };
    let ghost l = if line@.len() > 0 && line@.last() == '\r' {
        line@.drop_last()
    } else {
        line@
    };
    assert(l =~= line@.subrange(0, n as int));
    if n == 0 {
        return ;
    }
    // Find the first `=`.
    let mut k: usize = 0;
    while k < n && line[k] != '='
        invariant
            k <= n,
            n <= line@.len(),
            l == line@.subrange(0, n as int),
            forall|j: int| 0 <= j < k ==> l[j] != '=',
        decreases n - k,
    {
        k = k + 1;
    }
    proof {
        lemma_first_eq(l);
    }
    if k >= n {
        // No `=` in the line: it is dropped.
        assert(first_eq(l) == -1) by {
            if first_eq(l) != -1 {
                assert(l[first_eq(l)] == '=');
            }
        }
        return ;
    }
    assert(first_eq(l) == k) by {
        assert(l[k as int] == '=');
        if first_eq(l) == -1 {
            assert(l[k as int] != '=');
        }
    }
    let key = crate::text::chars_range_string(line, 0, k);
    let value = crate::text::chars_range_string(line, k + 1, n);
    assert(key@ =~= l.take(k as int));
    assert(value@ =~= l.skip(k + 1));
    let ghost pre = acc@;
    acc.push((key, value));
    proof {
        lemma_pairs_view(acc@);
        lemma_pairs_view(pre);
        assert(pairs_view(acc@) =~= accv.push((key@, value@)));
    }
}

/// Parse the probe's standard output into its `name=value` pairs, in the
/// order they were printed.
pub fn parse_properties_output(out: &str) -> (ps: Vec<(String, String)>)
    ensures
        pairs_view(ps@) == spec_props_of(out@),
{
    let v = crate::text::str_chars(out);
    let ghost s = out@;
    let mut acc: Vec<(String, String)> = Vec::new();
    let mut line: Vec<char> = Vec::new();
    let mut i: usize = 0;
    proof {
        assert(pairs_view(acc@) =~= Seq::<(Seq<char>, Seq<char>)>::empty());
        assert(line@ =~= Seq::<char>::empty());
    }
    while i < v.len()
        invariant
            v@ == s,
            i <= v.len(),
            v.len() == s.len(),
            spec_props_of(s) == props_scan(s, i as int, pairs_view(acc@), line@),
        decreases v.len() - i,
    {
        let c = v[i];
        if c == '\n' {
            finish_line_exec(&mut acc, &line);
            line = Vec::new();
            proof {
                assert(line@ =~= Seq::<char>::empty());
            }
        } else {
            line.push(c);
        }
        i = i + 1;
    }
    finish_line_exec(&mut acc, &line);
    acc
}

/// The value of the last pair whose key is `key`: a property printed
/// twice keeps its later value, as a map filled line by line would.
pub open spec fn spec_prop_get(ps: Seq<(Seq<char>, Seq<char>)>, key: Seq<char>) -> Option<
    Seq<char>,
>
    decreases ps.len(),
{
    if ps.len() == 0 {
        Option::None
    } else if ps.last().0 == key {
        Option::Some(ps.last().1)
    } else {
        spec_prop_get(ps.drop_last(), key)
    }
}

/// Look a property up by name among extracted pairs, last match winning.
pub fn prop_get(ps: &Vec<(String, String)>, key: &str) -> (r: Option<String>)
    ensures
        match r {
            Option::Some(v) => spec_prop_get(pairs_view(ps@), key@) == Option::Some(v@),
            Option::None => spec_prop_get(pairs_view(ps@), key@) is None,
        },
{
    proof {
        lemma_pairs_view(ps@);
    }
    let ghost pv = pairs_view(ps@);
    let mut i: usize = ps.len();
    proof {
        assert(pv.take(pv.len() as int) =~= pv);
    }
    while i > 0
        invariant
            i <= ps@.len(),
            pv == pairs_view(ps@),
            pv.len() == ps@.len(),
            forall|j: int|
                0 <= j < pv.len() ==> #[trigger] pv[j] == (ps@[j].0@, ps@[j].1@),
            spec_prop_get(pv, key@) == spec_prop_get(pv.take(i as int), key@),
        decreases i,
    {
        i = i - 1;
        assert(pv.take(i + 1).last() == pv[i as int]);
        assert(pv.take(i + 1).drop_last() =~= pv.take(i as int));
        if crate::text::str_eq(ps[i].0.as_str(), key) {
            return Option::Some(ps[i].1.clone());
        }
    }
    assert(pv.take(0).len() == 0);
    Option::None
}

/// The property names the probe is asked for, in the order it prints
/// them.
pub fn probe_property_names() -> (ps: Vec<String>)
    ensures
        ps@.len() == 9,
        ps@[0]@ == "java.home"@,
        ps@[1]@ == "java.version"@,
        ps@[2]@ == "java.vendor"@,
        ps@[3]@ == "os.arch"@,
        ps@[4]@ == "java.vm.name"@,
        ps@[5]@ == "java.vm.version"@,
        ps@[6]@ == "java.runtime.name"@,
        ps@[7]@ == "java.runtime.version"@,
        ps@[8]@ == "java.class.version"@,
{
    let mut ps: Vec<String> = Vec::new();
    ps.push(String::from_str("java.home"));
    ps.push(String::from_str("java.version"));
    ps.push(String::from_str("java.vendor"));
    ps.push(String::from_str("os.arch"));
    ps.push(String::from_str("java.vm.name"));
    ps.push(String::from_str("java.vm.version"));
    ps.push(String::from_str("java.runtime.name"));
    ps.push(String::from_str("java.runtime.version"));
    ps.push(String::from_str("java.class.version"));
    ps
}

/// Probe the runtime at `java_executable` for the given properties and
/// parse its output. The returned pairs are exactly the `name=value`
/// lines of some probe output; a runtime that cannot be probed yields
/// `None`.
pub fn extract_java_properties(
    env: &dyn ScanEnv,
    java_executable: &str,
    props: &Vec<String>,
) -> (r: Option<Vec<(String, String)>>)
    ensures
        match r {
            Option::Some(ps) => exists|out: Seq<char>| pairs_view(ps@) == spec_props_of(out),
            Option::None => true,
        },
{
    if !env.file_exists(java_executable) {
        return Option::None;
    }
    match env.run_probe(java_executable, props) {
        Option::Some(out) => {
            let ps = parse_properties_output(out.as_str());
            assert(pairs_view(ps@) == spec_props_of(out@));
            Option::Some(ps)
        },
        Option::None => Option::None,
    }
}

} // verus!
