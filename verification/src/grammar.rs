//! The line grammar: a line holds a benchmark result exactly when it
//! contains, in order and separated by runs of whitespace, the literal
//! `test`, a non-empty run of non-whitespace characters (the qualified name),
//! the marker `...`, the literal `bench:`, a non-empty run of digits and
//! commas (the duration), the literal `ns/iter`, the literal `(+/-`, a second
//! run of digits and commas (the variance) closed by `)`, and optionally
//! `=`, a third such run (the throughput) and the literal `MB/s`.
//!
//! The pattern need not start at the beginning of the line: the leftmost
//! position where it matches wins, and text after the matched span is
//! ignored.

use vstd::prelude::*;

use crate::numeric::is_digit;

verus! {

/// Whitespace, as the grammar understands it: the Unicode whitespace
/// characters.
pub open spec fn is_space(c: char) -> bool {
    c == ' ' || c == '\t' || c == '\n' || c == '\r' || c == '\u{000b}' || c == '\u{000c}'
        || c == '\u{0085}' || c == '\u{00a0}' || c == '\u{1680}' || ('\u{2000}' as u32 <= c as u32
        && c as u32 <= '\u{200a}' as u32) || c == '\u{2028}' || c == '\u{2029}' || c == '\u{202f}'
        || c == '\u{205f}' || c == '\u{3000}'
}

/// A character a numeric capture may hold: a decimal digit or a comma.
pub open spec fn is_num_char(c: char) -> bool {
    c == ',' || is_digit(c)
}

/// The position right after the maximal run of whitespace starting at `i`.
pub open spec fn skip_spaces(s: Seq<char>, i: int) -> int
    decreases s.len() - i when 0 <= i <= s.len()
{
    if i < s.len() && is_space(s[i]) {
        skip_spaces(s, i + 1)
    } else {
        i
    }
}

/// The position right after the maximal run of non-whitespace starting at `i`.
pub open spec fn skip_nonspaces(s: Seq<char>, i: int) -> int
    decreases s.len() - i when 0 <= i <= s.len()
{
    if i < s.len() && !is_space(s[i]) {
        skip_nonspaces(s, i + 1)
    } else {
        i
    }
}

/// The position right after the maximal run of digits and commas starting at `i`.
pub open spec fn skip_num_chars(s: Seq<char>, i: int) -> int
    decreases s.len() - i when 0 <= i <= s.len()
{
    if i < s.len() && is_num_char(s[i]) {
        skip_num_chars(s, i + 1)
    } else {
        i
    }
}

/// The literal `lit` stands in `s` at position `i`.
pub open spec fn lit_at(s: Seq<char>, i: int, lit: Seq<char>) -> bool {
    0 <= i && i + lit.len() <= s.len() && s.subrange(i, i + lit.len()) == lit
}

/// Where the four captures of one matched line stand: each capture is the
/// half-open range of positions it spans, and `tp` is absent when the line
/// carries no throughput clause.
pub ghost struct CapSpans {
    pub name_start: int,
    pub name_end: int,
    pub ns_start: int,
    pub ns_end: int,
    pub var_start: int,
    pub var_end: int,
    pub tp: Option<(int, int)>,
}

/// The capture ranges all lie within `s`, and no capture is empty.
pub open spec fn caps_wf(c: CapSpans, s: Seq<char>) -> bool {
    &&& 0 <= c.name_start < c.name_end <= s.len()
    &&& 0 <= c.ns_start < c.ns_end <= s.len()
    &&& 0 <= c.var_start < c.var_end <= s.len()
    &&& match c.tp {
        Some(p) => 0 <= p.0 < p.1 <= s.len(),
        None => true,
    }
}

/// The optional throughput clause, tried right after the closing `)`:
/// whitespace, `=`, whitespace, digits and commas, whitespace, `MB/s`.
/// Yields the capture's range, or `None` when the clause is not there.
pub open spec fn tp_at(s: Seq<char>, i: int) -> Option<(int, int)>
    recommends
        0 <= i <= s.len(),
{
    let g0 = skip_spaces(s, i);
    if g0 == i {
        None
    } else if !lit_at(s, g0, "="@) {
        None
    } else {
        let t0 = skip_spaces(s, g0 + "="@.len());
        if t0 == g0 + "="@.len() {
            None
        } else {
            let t1 = skip_num_chars(s, t0);
            if t1 == t0 {
                None
            } else {
                let h0 = skip_spaces(s, t1);
                if h0 == t1 {
                    None
                } else if !lit_at(s, h0, "MB/s"@) {
                    None
                } else {
                    Some((t0, t1))
                }
            }
        }
    }
}

/// The whole pattern, required to start exactly at position `i`; each run
/// of whitespace, of non-whitespace and of digits and commas is maximal.
/// Yields the captures, or `None` when the pattern does not stand at `i`.
pub open spec fn match_at(s: Seq<char>, i: int) -> Option<CapSpans>
    recommends
        0 <= i <= s.len(),
{
    if !lit_at(s, i, "test"@) {
        None
    } else {
        let name_start = skip_spaces(s, i + "test"@.len());
        if name_start == i + "test"@.len() {
            None
        } else {
            let name_end = skip_nonspaces(s, name_start);
            if name_end == name_start {
                None
            } else {
                let b0 = skip_spaces(s, name_end);
                if b0 == name_end || !lit_at(s, b0, "..."@) {
                    None
                } else {
                    let c0 = skip_spaces(s, b0 + "..."@.len());
                    if c0 == b0 + "..."@.len() || !lit_at(s, c0, "bench:"@) {
                        None
                    } else {
                        let ns_start = skip_spaces(s, c0 + "bench:"@.len());
                        if ns_start == c0 + "bench:"@.len() {
                            None
                        } else {
                            let ns_end = skip_num_chars(s, ns_start);
                            if ns_end == ns_start {
                                None
                            } else {
                                let d0 = skip_spaces(s, ns_end);
                                if d0 == ns_end || !lit_at(s, d0, "ns/iter"@) {
                                    None
                                } else {
                                    let e0 = skip_spaces(s, d0 + "ns/iter"@.len());
                                    if e0 == d0 + "ns/iter"@.len() || !lit_at(s, e0, "(+/-"@) {
                                        None
                                    } else {
                                        let var_start = skip_spaces(s, e0 + "(+/-"@.len());
                                        if var_start == e0 + "(+/-"@.len() {
                                            None
                                        } else {
                                            let var_end = skip_num_chars(s, var_start);
                                            if var_end == var_start || !lit_at(s, var_end, ")"@) {
                                                None
                                            } else {
                                                Some(
                                                    CapSpans {
                                                        name_start,
                                                        name_end,
                                                        ns_start,
                                                        ns_end,
                                                        var_start,
                                                        var_end,
                                                        tp: tp_at(s, var_end + ")"@.len()),
                                                    },
                                                )
                                            }
                                        }
                                    }
                                }
                            }
                        }
                    }
                }
            }
        }
    }
}

/// The leftmost match at or after position `i`.
pub open spec fn find_from(s: Seq<char>, i: int) -> Option<CapSpans>
    decreases s.len() - i when 0 <= i <= s.len()
{
    match match_at(s, i) {
        Some(c) => Some(c),
        None => if i < s.len() {
            find_from(s, i + 1)
        } else {
            None
        },
    }
}

/// The leftmost match of the pattern within `s`; `None` when no position
/// of `s` starts a match.
pub open spec fn find_match(s: Seq<char>) -> Option<CapSpans> {
    find_from(s, 0)
}

proof fn lemma_skip_spaces_bounds(s: Seq<char>, i: int)
    requires
        0 <= i <= s.len(),
    ensures
        i <= skip_spaces(s, i) <= s.len(),
    decreases s.len() - i,
{
    if i < s.len() && is_space(s[i]) {
        lemma_skip_spaces_bounds(s, i + 1);
    }
}

proof fn lemma_skip_nonspaces_bounds(s: Seq<char>, i: int)
    requires
        0 <= i <= s.len(),
    ensures
        i <= skip_nonspaces(s, i) <= s.len(),
    decreases s.len() - i,
{
    if i < s.len() && !is_space(s[i]) {
        lemma_skip_nonspaces_bounds(s, i + 1);
    }
}

proof fn lemma_skip_num_chars_bounds(s: Seq<char>, i: int)
    requires
        0 <= i <= s.len(),
    ensures
        i <= skip_num_chars(s, i) <= s.len(),
    decreases s.len() - i,
{
    if i < s.len() && is_num_char(s[i]) {
        lemma_skip_num_chars_bounds(s, i + 1);
    }
}

proof fn lemma_tp_at_wf(s: Seq<char>, i: int)
    requires
        0 <= i <= s.len(),
        tp_at(s, i) is Some,
    ensures
        0 <= (tp_at(s, i)->0).0 < (tp_at(s, i)->0).1 <= s.len(),
{
    lemma_skip_spaces_bounds(s, i);
    let g0 = skip_spaces(s, i);
    lemma_skip_spaces_bounds(s, g0 + "="@.len());
    let t0 = skip_spaces(s, g0 + "="@.len());
    lemma_skip_num_chars_bounds(s, t0);
}

/// Wherever the pattern matches, its captures lie within the line and none
/// of them is empty.
pub proof fn lemma_match_at_wf(s: Seq<char>, i: int)
    requires
        0 <= i <= s.len(),
        match_at(s, i) is Some,
    ensures
        caps_wf(match_at(s, i)->0, s),
{
    lemma_skip_spaces_bounds(s, i + "test"@.len());
    let name_start = skip_spaces(s, i + "test"@.len());
    lemma_skip_nonspaces_bounds(s, name_start);
    let name_end = skip_nonspaces(s, name_start);
    lemma_skip_spaces_bounds(s, name_end);
    let b0 = skip_spaces(s, name_end);
    lemma_skip_spaces_bounds(s, b0 + "..."@.len());
    let c0 = skip_spaces(s, b0 + "..."@.len());
    lemma_skip_spaces_bounds(s, c0 + "bench:"@.len());
    let ns_start = skip_spaces(s, c0 + "bench:"@.len());
    lemma_skip_num_chars_bounds(s, ns_start);
    let ns_end = skip_num_chars(s, ns_start);
    lemma_skip_spaces_bounds(s, ns_end);
    let d0 = skip_spaces(s, ns_end);
    lemma_skip_spaces_bounds(s, d0 + "ns/iter"@.len());
    let e0 = skip_spaces(s, d0 + "ns/iter"@.len());
    lemma_skip_spaces_bounds(s, e0 + "(+/-"@.len());
    let var_start = skip_spaces(s, e0 + "(+/-"@.len());
    lemma_skip_num_chars_bounds(s, var_start);
    let var_end = skip_num_chars(s, var_start);
    if tp_at(s, var_end + ")"@.len()) is Some {
        lemma_tp_at_wf(s, var_end + ")"@.len());
    }
}

/// What [`lemma_match_at_wf`] says of a match at one position holds of the
/// leftmost match as well.
pub proof fn lemma_find_from_wf(s: Seq<char>, i: int)
    requires
        0 <= i <= s.len(),
        find_from(s, i) is Some,
    ensures
        caps_wf(find_from(s, i)->0, s),
    decreases s.len() - i,
{
    if match_at(s, i) is Some {
        lemma_match_at_wf(s, i);
    } else {
        lemma_find_from_wf(s, i + 1);
    }
}

proof fn lemma_find_from_iff(s: Seq<char>, i: int)
    requires
        0 <= i <= s.len(),
    ensures
        find_from(s, i) is Some <==> exists|j: int|
            i <= j <= s.len() && (#[trigger] match_at(s, j)) is Some,
    decreases s.len() - i,
{
    if match_at(s, i) is Some {
        assert(i <= i <= s.len() && match_at(s, i) is Some);
    } else if i < s.len() {
        lemma_find_from_iff(s, i + 1);
        if find_from(s, i) is Some {
            let j = choose|j: int| i + 1 <= j <= s.len() && (#[trigger] match_at(s, j)) is Some;
            assert(i <= j <= s.len() && match_at(s, j) is Some);
        }
        if exists|j: int| i <= j <= s.len() && (#[trigger] match_at(s, j)) is Some {
            let j = choose|j: int| i <= j <= s.len() && (#[trigger] match_at(s, j)) is Some;
            assert(j != i);
            assert(i + 1 <= j <= s.len() && match_at(s, j) is Some);
        }
    }
}

/// A line holds a benchmark record exactly when the pattern matches at some
/// position of it.
pub proof fn lemma_find_match_iff(s: Seq<char>)
    ensures
        find_match(s) is Some <==> exists|j: int|
            0 <= j <= s.len() && (#[trigger] match_at(s, j)) is Some,
{
    lemma_find_from_iff(s, 0);
}

/// The captures of one matched line, as character positions into the line
/// (not byte offsets).
pub struct Caps {
    pub name_start: usize,
    pub name_end: usize,
    pub ns_start: usize,
    pub ns_end: usize,
    pub var_start: usize,
    pub var_end: usize,
    pub tp: Option<(usize, usize)>,
}

impl View for Caps {
    type V = CapSpans;

    open spec fn view(&self) -> CapSpans {
        CapSpans {
            name_start: self.name_start as int,
            name_end: self.name_end as int,
            ns_start: self.ns_start as int,
            ns_end: self.ns_end as int,
            var_start: self.var_start as int,
            var_end: self.var_end as int,
            tp: match self.tp {
                Some(p) => Some((p.0 as int, p.1 as int)),
                None => None,
            },
        }
    }
}

fn is_space_c(c: char) -> (b: bool)
    ensures
        b == is_space(c),
{
    let u = c as u32;
    c == ' ' || c == '\t' || c == '\n' || c == '\r' || c == '\u{000b}' || c == '\u{000c}'
        || c == '\u{0085}' || c == '\u{00a0}' || c == '\u{1680}' || (0x2000 <= u && u <= 0x200a)
        || c == '\u{2028}' || c == '\u{2029}' || c == '\u{202f}' || c == '\u{205f}'
        || c == '\u{3000}'
}

fn is_num_char_c(c: char) -> (b: bool)
    ensures
        b == is_num_char(c),
{
    let u = c as u32;
    c == ',' || (48 <= u && u <= 57)
}

fn scan_spaces(line: &str, i: usize, n: usize) -> (j: usize)
    requires
        n == line@.len(),
        i <= n,
    ensures
        j == skip_spaces(line@, i as int),
        i <= j <= n,
{
    let mut j = i;
    loop
        invariant
            n == line@.len(),
            i <= j <= n,
            skip_spaces(line@, i as int) == skip_spaces(line@, j as int),
        ensures
            j == skip_spaces(line@, i as int),
            i <= j <= n,
        decreases n - j,
    {
        if j == n {
            break ;
        }
        let c = line.get_char(j);
        if !is_space_c(c) {
            break ;
        }
        j = j + 1;
    }
    j
}

fn scan_nonspaces(line: &str, i: usize, n: usize) -> (j: usize)
    requires
        n == line@.len(),
        i <= n,
    ensures
        j == skip_nonspaces(line@, i as int),
        i <= j <= n,
{
    let mut j = i;
    loop
        invariant
            n == line@.len(),
            i <= j <= n,
            skip_nonspaces(line@, i as int) == skip_nonspaces(line@, j as int),
        ensures
            j == skip_nonspaces(line@, i as int),
            i <= j <= n,
        decreases n - j,
    {
        if j == n {
            break ;
        }
        let c = line.get_char(j);
        if is_space_c(c) {
            break ;
        }
        j = j + 1;
    }
    j
}

fn scan_num_chars(line: &str, i: usize, n: usize) -> (j: usize)
    requires
        n == line@.len(),
        i <= n,
    ensures
        j == skip_num_chars(line@, i as int),
        i <= j <= n,
{
    let mut j = i;
    loop
        invariant
            n == line@.len(),
            i <= j <= n,
            skip_num_chars(line@, i as int) == skip_num_chars(line@, j as int),
        ensures
            j == skip_num_chars(line@, i as int),
            i <= j <= n,
        decreases n - j,
    {
        if j == n {
            break ;
        }
        let c = line.get_char(j);
        if !is_num_char_c(c) {
            break ;
        }
        j = j + 1;
    }
    j
}

fn match_lit(line: &str, i: usize, n: usize, lit: &str) -> (b: bool)
    requires
        n == line@.len(),
        i <= n,
    ensures
        b == lit_at(line@, i as int, lit@),
{
    let m = lit.unicode_len();
    if m > n - i {
        return false;
    }
    let mut j: usize = 0;
    loop
        invariant
            n == line@.len(),
            m == lit@.len(),
            i <= n,
            m <= n - i,
            j <= m,
            forall|k: int| 0 <= k < j ==> line@[i + k] == lit@[k],
        ensures
            j == m,
            forall|k: int| 0 <= k < m ==> line@[i + k] == lit@[k],
        decreases m - j,
    {
        if j == m {
            break ;
        }
        if line.get_char(i + j) != lit.get_char(j) {
            proof {
                assert(line@.subrange(i as int, i + m as int)[j as int] == line@[i + j]);
                assert(line@.subrange(i as int, i + m as int) != lit@);
            }
            return false;
        }
        j = j + 1;
    }
    proof {
        assert(line@.subrange(i as int, i + m as int) =~= lit@);
    }
    true
}

fn tp_at_exec(line: &str, i: usize, n: usize) -> (r: Option<(usize, usize)>)
    requires
        n == line@.len(),
        i <= n,
    ensures
        match r {
            Some(p) => tp_at(line@, i as int) == Some((p.0 as int, p.1 as int)) && i <= p.0 < p.1
                <= n,
            None => tp_at(line@, i as int) is None,
        },
{
    let g0 = scan_spaces(line, i, n);
    if g0 == i {
        return None;
    }
    if !match_lit(line, g0, n, "=") {
        return None;
    }
    let eq_len = "=".unicode_len();
    let t0 = scan_spaces(line, g0 + eq_len, n);
    if t0 == g0 + eq_len {
        return None;
    }
    let t1 = scan_num_chars(line, t0, n);
    if t1 == t0 {
        return None;
    }
    let h0 = scan_spaces(line, t1, n);
    if h0 == t1 {
        return None;
    }
    if !match_lit(line, h0, n, "MB/s") {
        return None;
    }
    Some((t0, t1))
}

fn try_at(line: &str, i: usize, n: usize) -> (r: Option<Caps>)
    requires
        n == line@.len(),
        i <= n,
    ensures
        match r {
            Some(c) => match_at(line@, i as int) == Some(c@) && caps_wf(c@, line@),
            None => match_at(line@, i as int) is None,
        },
{
    if !match_lit(line, i, n, "test") {
        return None;
    }
    let test_len = "test".unicode_len();
    let name_start = scan_spaces(line, i + test_len, n);
    if name_start == i + test_len {
        return None;
    }
    let name_end = scan_nonspaces(line, name_start, n);
    if name_end == name_start {
        return None;
    }
    let b0 = scan_spaces(line, name_end, n);
    if b0 == name_end {
        return None;
    }
    if !match_lit(line, b0, n, "...") {
        return None;
    }
    let dots_len = "...".unicode_len();
    let c0 = scan_spaces(line, b0 + dots_len, n);
    if c0 == b0 + dots_len {
        return None;
    }
    if !match_lit(line, c0, n, "bench:") {
        return None;
    }
    let bench_len = "bench:".unicode_len();
    let ns_start = scan_spaces(line, c0 + bench_len, n);
    if ns_start == c0 + bench_len {
        return None;
    }
    let ns_end = scan_num_chars(line, ns_start, n);
    if ns_end == ns_start {
        return None;
    }
    let d0 = scan_spaces(line, ns_end, n);
    if d0 == ns_end {
        return None;
    }
    if !match_lit(line, d0, n, "ns/iter") {
        return None;
    }
    let iter_len = "ns/iter".unicode_len();
    let e0 = scan_spaces(line, d0 + iter_len, n);
    if e0 == d0 + iter_len {
        return None;
    }
    if !match_lit(line, e0, n, "(+/-") {
        return None;
    }
    let open_len = "(+/-".unicode_len();
    let var_start = scan_spaces(line, e0 + open_len, n);
    if var_start == e0 + open_len {
        return None;
    }
    let var_end = scan_num_chars(line, var_start, n);
    if var_end == var_start {
        return None;
    }
    if !match_lit(line, var_end, n, ")") {
        return None;
    }
    let close_len = ")".unicode_len();
    let tp = tp_at_exec(line, var_end + close_len, n);
    Some(Caps { name_start, name_end, ns_start, ns_end, var_start, var_end, tp })
}

/// Applies the grammar to one line: the captures of the leftmost match, or
/// `None` when the line holds no benchmark result.
pub fn scan_line(line: &str) -> (r: Option<Caps>)
    ensures
        match r {
            Some(c) => find_match(line@) == Some(c@) && caps_wf(c@, line@),
            None => find_match(line@) is None,
        },
{
    let n = line.unicode_len();
    let mut i: usize = 0;
    loop
        invariant
            n == line@.len(),
            i <= n,
            find_from(line@, 0) == find_from(line@, i as int),
        ensures
            find_from(line@, 0) is None,
        decreases n - i,
    {
        let r = try_at(line, i, n);
        match r {
            Some(c) => {
                return Some(c);
            },
            None => {
                if i == n {
                    break ;
                }
                i = i + 1;
            },
        }
    }
    None
}

} // verus!
