//! The benchmark record and its construction from text lines: one record per
//! line that the grammar matches, numeric captures normalized, the display
//! name derived from the qualified name, and equality and ordering defined by
//! the qualified name alone.

use vstd::prelude::*;

use crate::grammar::{find_match, scan_line};
use crate::numeric::{parse_commas, spec_parse_commas};

verus! {

/// All extractable data from a single micro-benchmark.
#[derive(Clone, Debug)]
pub struct Benchmark {
    /// The full qualified identifier, e.g. `mod::test_name`.
    pub name: String,
    /// The display identifier, e.g. `test_name`.
    pub shortname: String,
    /// The benchmark's duration in nanoseconds.
    pub ns: u64,
    /// The benchmark's variance, in the same unit as `ns`.
    pub variance: u64,
    /// Throughput of the benchmark, when the line carries one.
    pub throughput: Option<u64>,
}

/// The mathematical content of a [`Benchmark`]: its strings as character
/// sequences, its figures as they stand.
pub ghost struct BenchView {
    pub name: Seq<char>,
    pub shortname: Seq<char>,
    pub ns: u64,
    pub variance: u64,
    pub throughput: Option<u64>,
}

impl View for Benchmark {
    type V = BenchView;

    open spec fn view(&self) -> BenchView {
        BenchView {
            name: self.name@,
            shortname: self.shortname@,
            ns: self.ns,
            variance: self.variance,
            throughput: self.throughput,
        }
    }
}

/// Scans `s` for the two-character separator `::` from position `j` down;
/// what follows the last occurrence, or all of `s` when there is none.
pub open spec fn shortname_from(s: Seq<char>, j: int) -> Seq<char>
    decreases j + 2 when -2 <= j
{
    if j < 0 {
        s
    } else if j + 1 < s.len() && s[j] == ':' && s[j + 1] == ':' {
        s.subrange(j + 2, s.len() as int)
    } else {
        shortname_from(s, j - 1)
    }
}

/// The display name: what follows the last `::` in the qualified name, or
/// the whole name when it holds no `::`.
pub open spec fn spec_shortname(s: Seq<char>) -> Seq<char> {
    shortname_from(s, s.len() - 2)
}

/// What parsing one line yields: `None` when the grammar finds no match or
/// the duration or variance capture does not parse as a `u64`; otherwise the
/// record built from the captures, with the throughput absent whenever its
/// capture is absent or does not parse.
pub open spec fn spec_parse_line(l: Seq<char>) -> Option<BenchView> {
    match find_match(l) {
        None => None,
        Some(c) => {
            let ns = spec_parse_commas(l.subrange(c.ns_start, c.ns_end));
            let va = spec_parse_commas(l.subrange(c.var_start, c.var_end));
            if ns is None || va is None {
                None
            } else {
                let name = l.subrange(c.name_start, c.name_end);
                Some(
                    BenchView {
                        name: name,
                        shortname: spec_shortname(name),
                        ns: ns->0,
                        variance: va->0,
                        throughput: match c.tp {
                            None => None,
                            Some(p) => spec_parse_commas(l.subrange(p.0, p.1)),
                        },
                    },
                )
            }
        },
    }
}

/// The records of all matching lines, in input order, non-matching lines
/// skipped.
pub open spec fn spec_parse_all(ls: Seq<Seq<char>>) -> Seq<BenchView> {
    ls.filter_map(|l: Seq<char>| spec_parse_line(l))
}

/// Batch parsing preserves input order and shifts nothing: the records of a
/// concatenated input are the records of its parts, in order, so a skipped
/// line never moves a later match.
pub proof fn lemma_parse_all_append(a: Seq<Seq<char>>, b: Seq<Seq<char>>)
    ensures
        spec_parse_all(a + b) == spec_parse_all(a) + spec_parse_all(b),
    decreases b.len(),
{
    if b.len() == 0 {
        assert(a + b =~= a);
        assert(spec_parse_all(b) == Seq::<BenchView>::empty());
        assert(spec_parse_all(a) + spec_parse_all(b) =~= spec_parse_all(a));
    } else {
        lemma_parse_all_append(a, b.drop_last());
        assert((a + b).drop_last() =~= a + b.drop_last());
        assert((a + b).last() == b.last());
        match spec_parse_line(b.last()) {
            Some(v) => {
                assert(spec_parse_all(a + b) == spec_parse_all(a + b.drop_last()) + seq![v]);
                assert(spec_parse_all(b) == spec_parse_all(b.drop_last()) + seq![v]);
                assert(spec_parse_all(a) + (spec_parse_all(b.drop_last()) + seq![v]) =~= (
                spec_parse_all(a) + spec_parse_all(b.drop_last())) + seq![v]);
            },
            None => {
                assert(spec_parse_all(a + b) == spec_parse_all(a + b.drop_last()));
                assert(spec_parse_all(b) == spec_parse_all(b.drop_last()));
            },
        }
    }
}

proof fn lemma_shortname_from_suffix(s: Seq<char>, j: int)
    requires
        -2 <= j,
        j <= s.len() - 2,
    ensures
        exists|k: int| 0 <= k <= s.len() && shortname_from(s, j) == #[trigger] s.subrange(
            k,
            s.len() as int,
        ),
    decreases j + 2,
{
    if j < 0 {
        assert(s.subrange(0, s.len() as int) =~= s);
        assert(shortname_from(s, j) == s.subrange(0, s.len() as int));
    } else if j + 1 < s.len() && s[j] == ':' && s[j + 1] == ':' {
        assert(shortname_from(s, j) == s.subrange(j + 2, s.len() as int));
    } else {
        lemma_shortname_from_suffix(s, j - 1);
    }
}

/// The short name is a suffix of the qualified name (all of it, when the
/// name holds no separator).
pub proof fn lemma_shortname_suffix(s: Seq<char>)
    ensures
        exists|k: int| 0 <= k <= s.len() && spec_shortname(s) == #[trigger] s.subrange(
            k,
            s.len() as int,
        ),
{
    lemma_shortname_from_suffix(s, s.len() - 2);
}

proof fn lemma_shortname_from_no_sep(s: Seq<char>, j: int)
    requires
        -2 <= j,
        j <= s.len() - 2,
        forall|t: int| 0 <= t < s.len() - 1 ==> !((#[trigger] s[t]) == ':' && s[t + 1] == ':'),
    ensures
        shortname_from(s, j) == s,
    decreases j + 2,
{
    if j >= 0 {
        lemma_shortname_from_no_sep(s, j - 1);
    }
}

/// A qualified name without the separator `::` is its own short name.
pub proof fn lemma_shortname_no_sep(s: Seq<char>)
    requires
        forall|t: int| 0 <= t < s.len() - 1 ==> !((#[trigger] s[t]) == ':' && s[t + 1] == ':'),
    ensures
        spec_shortname(s) == s,
{
    lemma_shortname_from_no_sep(s, s.len() - 2);
}

/// Every parsed record is well formed: its qualified name is non-empty, and
/// its short name is derived from that name.
pub proof fn lemma_record_wf(l: Seq<char>)
    requires
        spec_parse_line(l) is Some,
    ensures
        (spec_parse_line(l)->0).name.len() > 0,
        (spec_parse_line(l)->0).shortname == spec_shortname((spec_parse_line(l)->0).name),
{
    crate::grammar::lemma_find_from_wf(l, 0);
}

fn shortname_of_str(name: &str) -> (r: String)
    ensures
        r@ == spec_shortname(name@),
{
    let n = name.unicode_len();
    if n < 2 {
        return name.to_owned();
    }
    let mut j = n - 2;
    loop
        invariant
            n == name@.len(),
            2 <= n,
            j <= n - 2,
            spec_shortname(name@) == shortname_from(name@, j as int),
        ensures
            spec_shortname(name@) == name@,
        decreases j,
    {
        if name.get_char(j) == ':' && name.get_char(j + 1) == ':' {
            let r = name.substring_char(j + 2, n).to_owned();
            return r;
        }
        if j == 0 {
            proof {
                assert(shortname_from(name@, 0) == shortname_from(name@, -1));
                assert(shortname_from(name@, -1) == name@);
            }
            break ;
        }
        j = j - 1;
    }
    name.to_owned()
}

impl Benchmark {
    /// Parses a single benchmark line into a record. `None` says the line is
    /// no benchmark result and is to be skipped; it is not an error.
    pub fn parse_line(line: &str) -> (r: Option<Benchmark>)
        ensures
            match (r, spec_parse_line(line@)) {
                (Some(b), Some(v)) => b@ == v,
                (None, None) => true,
                _ => false,
            },
    {
        let caps = match scan_line(line) {
            None => {
                return None;
            },
            Some(caps) => caps,
        };
        let ns = match parse_commas(line.substring_char(caps.ns_start, caps.ns_end)) {
            None => {
                return None;
            },
            Some(ns) => ns,
        };
        let variance = match parse_commas(line.substring_char(caps.var_start, caps.var_end)) {
            None => {
                return None;
            },
            Some(variance) => variance,
        };
        let throughput = match caps.tp {
            None => None,
            Some(p) => parse_commas(line.substring_char(p.0, p.1)),
        };
        let name = line.substring_char(caps.name_start, caps.name_end);
        let shortname = shortname_of_str(name);
        Some(Benchmark { name: name.to_owned(), shortname, ns, variance, throughput })
    }
}

/// Parses benchmarks from a sequence of text lines: one record per matching
/// line, in input order; non-matching lines are skipped silently.
pub fn parse_lines(lines: &Vec<String>) -> (r: Vec<Benchmark>)
    ensures
        r@.map_values(|b: Benchmark| b@) == spec_parse_all(
            lines@.map_values(|l: String| l@),
        ),
{
    let ghost m = lines@.map_values(|l: String| l@);
    let mut out: Vec<Benchmark> = Vec::new();
    let mut i: usize = 0;
    while i < lines.len()
        invariant
            m == lines@.map_values(|l: String| l@),
            i <= lines.len(),
            out@.map_values(|b: Benchmark| b@) == spec_parse_all(m.take(i as int)),
        decreases lines.len() - i,
    {
        let line = &lines[i];
        let bench = Benchmark::parse_line(line.as_str());
        proof {
            assert(m.take(i + 1).drop_last() =~= m.take(i as int));
            assert(m.take(i + 1).last() == m[i as int]);
            assert(m[i as int] == lines@[i as int]@);
        }
        match bench {
            Some(b) => {
                let ghost prev = out@.map_values(|b: Benchmark| b@);
                out.push(b);
                proof {
                    assert(out@.map_values(|b: Benchmark| b@) =~= prev + seq![b@]);
                    assert(spec_parse_all(m.take(i + 1)) == spec_parse_all(m.take(i as int))
                        + seq![b@]);
                }
            },
            None => {
                proof {
                    assert(spec_parse_all(m.take(i + 1)) == spec_parse_all(m.take(i as int)));
                }
            },
        }
        i = i + 1;
    }
    proof {
        assert(m.take(lines@.len() as int) =~= m);
    }
    out
}

} // verus!
