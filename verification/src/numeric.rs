//! Normalization of the numeric captures: the comma is a pure
//! thousands-separator and is discarded wherever it stands; what is left is
//! read as an unsigned base-ten integer.

use vstd::prelude::*;

verus! {

/// A decimal digit character, `'0'` through `'9'`.
pub open spec fn is_digit(c: char) -> bool {
    48 <= c as u32 && c as u32 <= 57
}

/// The numeric value of a digit character; `0` on anything else.
pub open spec fn digit_val(c: char) -> nat {
    if is_digit(c) {
        (c as u32 - 48) as nat
    } else {
        0
    }
}

/// The comma-stripped form of a character sequence: every `','` removed, all
/// other characters kept in their original order.
pub open spec fn strip_commas(s: Seq<char>) -> Seq<char> {
    s.filter(|c: char| c != ',')
}

/// Every character of `s` is a decimal digit.
pub open spec fn all_digits(s: Seq<char>) -> bool {
    forall|i: int| 0 <= i < s.len() ==> is_digit(s[i])
}

/// The value of a digit string read in base ten.
pub open spec fn digits_val(s: Seq<char>) -> nat
    decreases s.len(),
{
    if s.len() == 0 {
        0
    } else {
        digits_val(s.drop_last()) * 10 + digit_val(s.last())
    }
}

/// What parsing a numeric capture yields: the base-ten value of the
/// comma-stripped text, provided something is left of it, nothing but digits
/// is left, and the value fits in a `u64`; `None` otherwise.
pub open spec fn spec_parse_commas(s: Seq<char>) -> Option<u64> {
    let d = strip_commas(s);
    if d.len() > 0 && all_digits(d) && digits_val(d) <= u64::MAX {
        Some(digits_val(d) as u64)
    } else {
        None
    }
}

/// Relies on `String::push`: appends the one character at the end.
#[verifier::external_body]
fn push_char(s: &mut String, c: char)
    ensures
        final(s)@ == old(s)@.push(c),
{
    s.push(c)
}

/// Drops all commas in a string.
pub fn drop_commas(s: &str) -> (r: String)
    ensures
        r@ == strip_commas(s@),
{
    let n = s.unicode_len();
    let mut out = String::new();
    let mut i: usize = 0;
    while i < n
        invariant
            n == s@.len(),
            i <= n,
            out@ == strip_commas(s@.take(i as int)),
        decreases n - i,
    {
        let c = s.get_char(i);
        if c != ',' {
            push_char(&mut out, c);
        }
        proof {
            reveal(Seq::filter);
            assert(s@.take(i + 1).drop_last() =~= s@.take(i as int));
            assert(s@.take(i + 1).last() == s@[i as int]);
        }
        i = i + 1;
    }
    proof {
        assert(s@.take(n as int) =~= s@);
    }
    out
}

/// Largest `u64` that another digit can be appended to: `u64::MAX / 10`.
const LAST_SAFE_PREFIX: u64 = 1844674407370955161;

/// The base-ten value of a prefix never exceeds the value of the whole.
proof fn lemma_digits_val_take_le(s: Seq<char>, k: int)
    requires
        0 <= k <= s.len(),
    ensures
        digits_val(s.take(k)) <= digits_val(s),
    decreases s.len() - k,
{
    if k == s.len() {
        assert(s.take(k) =~= s);
    } else {
        assert(s.take(k + 1).drop_last() =~= s.take(k));
        assert(s.take(k + 1).last() == s[k]);
        assert(digits_val(s.take(k + 1)) == digits_val(s.take(k)) * 10 + digit_val(s[k]));
        lemma_digits_val_take_le(s, k + 1);
    }
}

/// Drops all commas in a string and parses what is left as a `u64`.
pub fn parse_commas(s: &str) -> (r: Option<u64>)
    ensures
        r == spec_parse_commas(s@),
{
    let stripped = drop_commas(s);
    let t = stripped.as_str();
    let n = t.unicode_len();
    if n == 0 {
        return None;
    }
    let mut val: u64 = 0;
    let mut i: usize = 0;
    while i < n
        invariant
            t@ == strip_commas(s@),
            n == t@.len(),
            0 < n,
            i <= n,
            all_digits(t@.take(i as int)),
            val == digits_val(t@.take(i as int)),
        decreases n - i,
    {
        let c = t.get_char(i);
        let cu = c as u32;
        proof {
            assert(t@.take(i + 1).drop_last() =~= t@.take(i as int));
            assert(t@.take(i + 1).last() == t@[i as int]);
        }
        if cu < 48 || cu > 57 {
            assert(!is_digit(t@[i as int]));
            return None;
        }
        let d = (cu - 48) as u64;
        if val > LAST_SAFE_PREFIX || (val == LAST_SAFE_PREFIX && d > 5) {
            proof {
                assert(digits_val(t@.take(i + 1)) > u64::MAX);
                lemma_digits_val_take_le(t@, i + 1);
            }
            return None;
        }
        val = val * 10 + d;
        i = i + 1;
    }
    proof {
        assert(t@.take(n as int) =~= t@);
    }
    Some(val)
}

/// Every character that survives the stripping is no comma.
proof fn lemma_strip_commas_no_commas(s: Seq<char>)
    ensures
        forall|i: int| 0 <= i < strip_commas(s).len() ==> strip_commas(s)[i] != ',',
{
    broadcast use vstd::seq_lib::group_filter_ensures;

}

/// Stripping leaves a comma-free sequence unchanged.
proof fn lemma_strip_commas_comma_free(s: Seq<char>)
    requires
        forall|i: int| 0 <= i < s.len() ==> s[i] != ',',
    ensures
        strip_commas(s) == s,
    decreases s.len(),
{
    reveal(Seq::filter);
    if s.len() == 0 {
        assert(strip_commas(s) =~= s);
    } else {
        lemma_strip_commas_comma_free(s.drop_last());
        assert(strip_commas(s) =~= s);
    }
}

/// Comma removal is order-preserving: it distributes over concatenation, so
/// every kept character stands in its original place relative to the others.
pub proof fn lemma_strip_commas_append(a: Seq<char>, b: Seq<char>)
    ensures
        strip_commas(a + b) == strip_commas(a) + strip_commas(b),
{
    broadcast use vstd::prelude::Seq::filter_distributes_over_add;

}

/// Comma removal is idempotent: stripping an already stripped sequence
/// changes nothing.
pub proof fn lemma_strip_commas_idempotent(s: Seq<char>)
    ensures
        strip_commas(strip_commas(s)) == strip_commas(s),
{
    lemma_strip_commas_no_commas(s);
    lemma_strip_commas_comma_free(strip_commas(s));
}

} // verus!
