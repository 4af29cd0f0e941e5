//! Equality and ordering of benchmark records, defined by the qualified
//! `name` alone: two records with the same name are equal whatever their
//! figures say, and records order lexicographically by name. This makes
//! deduplication and sorting go by identity, ignoring measurement noise.

use core::cmp::Ordering;

use vstd::prelude::*;
use vstd::std_specs::cmp::{PartialEqSpec, PartialOrdSpec};

use crate::bench::Benchmark;

verus! {

/// Lexicographic comparison of two character sequences from position `i` on,
/// by code point; the shorter sequence orders first when one is a prefix of
/// the other.
pub open spec fn lex_cmp_from(a: Seq<char>, b: Seq<char>, i: int) -> Ordering
    decreases a.len() - i when 0 <= i
{
    if i >= a.len() && i >= b.len() {
        Ordering::Equal
    } else if i >= a.len() {
        Ordering::Less
    } else if i >= b.len() {
        Ordering::Greater
    } else if (a[i] as u32) < (b[i] as u32) {
        Ordering::Less
    } else if (a[i] as u32) > (b[i] as u32) {
        Ordering::Greater
    } else {
        lex_cmp_from(a, b, i + 1)
    }
}

/// Lexicographic order on character sequences, by code point.
pub open spec fn lex_cmp(a: Seq<char>, b: Seq<char>) -> Ordering {
    lex_cmp_from(a, b, 0)
}

fn str_cmp(a: &str, b: &str) -> (r: Ordering)
    ensures
        r == lex_cmp(a@, b@),
{
    let an = a.unicode_len();
    let bn = b.unicode_len();
    let mut i: usize = 0;
    loop
        invariant
            an == a@.len(),
            bn == b@.len(),
            i <= an,
            i <= bn,
            lex_cmp(a@, b@) == lex_cmp_from(a@, b@, i as int),
        decreases an - i,
    {
        if i == an && i == bn {
            return Ordering::Equal;
        }
        if i == an {
            return Ordering::Less;
        }
        if i == bn {
            return Ordering::Greater;
        }
        let ca = a.get_char(i) as u32;
        let cb = b.get_char(i) as u32;
        if ca < cb {
            return Ordering::Less;
        }
        if ca > cb {
            return Ordering::Greater;
        }
        i = i + 1;
    }
}

impl PartialEq for Benchmark {
    fn eq(&self, other: &Benchmark) -> (r: bool) {
        self.name == other.name
    }
}

impl vstd::std_specs::cmp::PartialEqSpecImpl for Benchmark {
    open spec fn obeys_eq_spec() -> bool {
        true
    }

    open spec fn eq_spec(&self, other: &Benchmark) -> bool {
        self.name@ == other.name@
    }
}

impl Eq for Benchmark {

}

impl PartialOrd for Benchmark {
    fn partial_cmp(&self, other: &Benchmark) -> (r: Option<Ordering>) {
        Some(str_cmp(self.name.as_str(), other.name.as_str()))
    }
}

impl vstd::std_specs::cmp::PartialOrdSpecImpl for Benchmark {
    open spec fn obeys_partial_cmp_spec() -> bool {
        true
    }

    open spec fn partial_cmp_spec(&self, other: &Benchmark) -> Option<Ordering> {
        Some(lex_cmp(self.name@, other.name@))
    }
}

proof fn lemma_lex_cmp_from_equal(a: Seq<char>, b: Seq<char>, i: int)
    requires
        0 <= i <= a.len(),
        i <= b.len(),
    ensures
        lex_cmp_from(a, b, i) == Ordering::Equal <==> (a.len() == b.len() && forall|j: int|
            i <= j < a.len() ==> a[j] == b[j]),
    decreases a.len() - i,
{
    if i >= a.len() && i >= b.len() {
    } else if i >= a.len() || i >= b.len() {
    } else if (a[i] as u32) != (b[i] as u32) {
    } else {
        vstd::utf8::char_u32_cast(a[i], a[i] as u32);
        vstd::utf8::char_u32_cast(b[i], b[i] as u32);
        assert(a[i] == b[i]);
        lemma_lex_cmp_from_equal(a, b, i + 1);
    }
}

/// The comparison says `Equal` exactly on equal sequences, so two records
/// compare equal precisely when their names agree character for character.
pub proof fn lemma_lex_cmp_equal_iff(a: Seq<char>, b: Seq<char>)
    ensures
        lex_cmp(a, b) == Ordering::Equal <==> a == b,
{
    lemma_lex_cmp_from_equal(a, b, 0);
    if a.len() == b.len() && (forall|j: int| 0 <= j < a.len() ==> a[j] == b[j]) {
        assert(a =~= b);
    }
}

proof fn lemma_lex_cmp_from_flip(a: Seq<char>, b: Seq<char>, i: int)
    requires
        0 <= i,
    ensures
        lex_cmp_from(a, b, i) == Ordering::Less <==> lex_cmp_from(b, a, i) == Ordering::Greater,
    decreases a.len() - i, b.len() - i,
{
    if i < a.len() && i < b.len() && (a[i] as u32) == (b[i] as u32) {
        lemma_lex_cmp_from_flip(a, b, i + 1);
    }
}

/// The order is antisymmetric: `a` before `b` exactly when `b` after `a`.
pub proof fn lemma_lex_cmp_flip(a: Seq<char>, b: Seq<char>)
    ensures
        lex_cmp(a, b) == Ordering::Less <==> lex_cmp(b, a) == Ordering::Greater,
{
    lemma_lex_cmp_from_flip(a, b, 0);
}

proof fn lemma_lex_cmp_from_trans(a: Seq<char>, b: Seq<char>, c: Seq<char>, i: int)
    requires
        0 <= i,
        lex_cmp_from(a, b, i) == Ordering::Less,
        lex_cmp_from(b, c, i) == Ordering::Less,
    ensures
        lex_cmp_from(a, c, i) == Ordering::Less,
    decreases a.len() - i,
{
    if i < a.len() && i < b.len() && i < c.len() && (a[i] as u32) == (b[i] as u32) && (b[i]
        as u32) == (c[i] as u32) {
        lemma_lex_cmp_from_trans(a, b, c, i + 1);
    }
}

/// The order is transitive, so sorting a batch of records by name behaves as
/// a total order on the distinct names.
pub proof fn lemma_lex_cmp_trans(a: Seq<char>, b: Seq<char>, c: Seq<char>)
    ensures
        lex_cmp(a, b) == Ordering::Less && lex_cmp(b, c) == Ordering::Less ==> lex_cmp(a, c)
            == Ordering::Less,
{
    if lex_cmp(a, b) == Ordering::Less && lex_cmp(b, c) == Ordering::Less {
        lemma_lex_cmp_from_trans(a, b, c, 0);
    }
}

/// Equality and ordering of records go by the qualified name alone: records
/// with identical names are equal whatever `ns`, `variance` and `throughput`
/// hold, the comparison is the lexicographic comparison of the names, and it
/// says `Equal` exactly on the records that are equal.
pub proof fn lemma_order_is_name_order(a: &Benchmark, b: &Benchmark)
    ensures
        a.eq_spec(b) <==> a.name@ == b.name@,
        a.partial_cmp_spec(b) == Some(lex_cmp(a.name@, b.name@)),
        a.partial_cmp_spec(b) == Some(Ordering::Equal) <==> a.eq_spec(b),
{
    lemma_lex_cmp_equal_iff(a.name@, b.name@);
}

} // verus!
