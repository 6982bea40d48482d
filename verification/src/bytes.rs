//! Helpers on byte sequences: ASCII classification, whitespace trimming,
//! searching, and strings of decimal digits. The wire protocol is plain
//! ASCII, so all response parsing is grounded in these definitions.

use vstd::prelude::*;
use vstd::slice::slice_subrange;
use vstd::slice::slice_to_vec;

verus! {

/// ASCII whitespace: space, tab, line feed, vertical tab, form feed,
/// carriage return.
pub open spec fn is_ascii_space(b: u8) -> bool {
    b == 32 || b == 9 || b == 10 || b == 11 || b == 12 || b == 13
}

/// ASCII decimal digit.
pub open spec fn is_ascii_digit(b: u8) -> bool {
    48 <= b <= 57
}

/// Every byte of `s` is a decimal digit.
pub open spec fn all_digits(s: Seq<u8>) -> bool {
    forall|i: int| 0 <= i < s.len() ==> is_ascii_digit(#[trigger] s[i])
}

/// Every byte of `s` is plain ASCII.
pub open spec fn all_ascii(s: Seq<u8>) -> bool {
    forall|i: int| 0 <= i < s.len() ==> #[trigger] s[i] < 128
}

/// The characters that a sequence of ASCII bytes denotes, byte for byte.
pub open spec fn ascii_chars(s: Seq<u8>) -> Seq<char> {
    s.map_values(|b: u8| b as char)
}

/// Does `s` begin with `prefix`?
pub open spec fn starts_with_spec(s: Seq<u8>, prefix: Seq<u8>) -> bool {
    s.len() >= prefix.len() && s.subrange(0, prefix.len() as int) == prefix
}

/// Numeric value of a string of decimal digits, most significant first.
pub open spec fn digits_value(s: Seq<u8>) -> nat
    decreases s.len(),
{
    if s.len() == 0 {
        0
    } else {
        (digits_value(s.drop_last()) * 10 + (s.last() - 48)) as nat
    }
}

/// Index of the first occurrence of `b` in `s`, or -1 when `b` is absent.
pub open spec fn first_index_of(s: Seq<u8>, b: u8) -> int
    decreases s.len(),
{
    if s.len() == 0 {
        -1
    } else if s[0] == b {
        0
    } else if first_index_of(s.drop_first(), b) == -1 {
        -1
    } else {
        1 + first_index_of(s.drop_first(), b)
    }
}

/// `s` with leading ASCII whitespace removed.
pub open spec fn trim_start_spec(s: Seq<u8>) -> Seq<u8>
    decreases s.len(),
{
    if s.len() > 0 && is_ascii_space(s[0]) {
        trim_start_spec(s.drop_first())
    } else {
        s
    }
}

/// `s` with trailing ASCII whitespace removed.
pub open spec fn trim_end_spec(s: Seq<u8>) -> Seq<u8>
    decreases s.len(),
{
    if s.len() > 0 && is_ascii_space(s.last()) {
        trim_end_spec(s.drop_last())
    } else {
        s
    }
}

/// `s` with ASCII whitespace removed from both ends.
pub open spec fn trim_spec(s: Seq<u8>) -> Seq<u8> {
    trim_end_spec(trim_start_spec(s))
}

/// What `first_index_of` reports is sound: -1 means no occurrence, and a
/// found index holds `b` with no earlier occurrence.
pub proof fn lemma_first_index_of(s: Seq<u8>, b: u8)
    ensures
        first_index_of(s, b) == -1 ==> forall|i: int| 0 <= i < s.len() ==> s[i] != b,
        first_index_of(s, b) != -1 ==> 0 <= first_index_of(s, b) < s.len()
            && s[first_index_of(s, b)] == b
            && forall|i: int| 0 <= i < first_index_of(s, b) ==> s[i] != b,
    decreases s.len(),
{
    if s.len() > 0 {
        let t = s.drop_first();
        lemma_first_index_of(t, b);
        if s[0] != b {
            let r = first_index_of(t, b);
            if r == -1 {
                assert forall|i: int| 0 <= i < s.len() implies s[i] != b by {
                    if i > 0 {
                        assert(t[i - 1] != b);
                    }
                }
            } else {
                assert(t[r] == s[r + 1]);
                assert forall|i: int| 0 <= i < r + 1 implies s[i] != b by {
                    if i > 0 {
                        assert(t[i - 1] != b);
                    }
                }
            }
        }
    }
}

/// The converse direction: a position that holds `b`, with no earlier
/// occurrence, is exactly `first_index_of`.
pub proof fn lemma_first_index_of_is(s: Seq<u8>, b: u8, j: int)
    requires
        0 <= j < s.len(),
        s[j] == b,
        forall|i: int| 0 <= i < j ==> s[i] != b,
    ensures
        first_index_of(s, b) == j,
    decreases s.len(),
{
    if j > 0 {
        assert(forall|i: int| 0 <= i < s.drop_first().len() ==> s.drop_first()[i] == s[i + 1]);
        lemma_first_index_of_is(s.drop_first(), b, j - 1);
    }
}

/// When `b` does not occur in `s`, `first_index_of` reports -1.
pub proof fn lemma_first_index_of_none(s: Seq<u8>, b: u8)
    requires
        forall|i: int| 0 <= i < s.len() ==> s[i] != b,
    ensures
        first_index_of(s, b) == -1,
{
    lemma_first_index_of(s, b);
    if first_index_of(s, b) != -1 {
        assert(s[first_index_of(s, b)] == b);
    }
}

/// Dropping a space-only prefix leaves `trim_start_spec` unchanged.
proof fn lemma_trim_start_skip(s: Seq<u8>, i: int)
    requires
        0 <= i <= s.len(),
        forall|k: int| 0 <= k < i ==> is_ascii_space(#[trigger] s[k]),
    ensures
        trim_start_spec(s) == trim_start_spec(s.subrange(i, s.len() as int)),
    decreases i,
{
    if i == 0 {
        assert(s.subrange(0, s.len() as int) =~= s);
    } else {
        assert(is_ascii_space(s[0]));
        assert(trim_start_spec(s) == trim_start_spec(s.drop_first()));
        let t = s.drop_first();
        assert(forall|k: int| 0 <= k < i - 1 ==> is_ascii_space(#[trigger] t[k]));
        lemma_trim_start_skip(t, i - 1);
        assert(t.subrange(i - 1, t.len() as int) =~= s.subrange(i, s.len() as int));
    }
}

/// A sequence that does not start with a space is already trim-started.
proof fn lemma_trim_start_noop(s: Seq<u8>)
    requires
        s.len() == 0 || !is_ascii_space(s[0]),
    ensures
        trim_start_spec(s) == s,
{
}

/// Dropping a space-only suffix leaves `trim_end_spec` unchanged.
proof fn lemma_trim_end_skip(s: Seq<u8>, j: int)
    requires
        0 <= j <= s.len(),
        forall|k: int| j <= k < s.len() ==> is_ascii_space(#[trigger] s[k]),
    ensures
        trim_end_spec(s) == trim_end_spec(s.subrange(0, j)),
    decreases s.len() - j,
{
    if j == s.len() {
        assert(s.subrange(0, s.len() as int) =~= s);
    } else {
        assert(is_ascii_space(s.last()));
        assert(trim_end_spec(s) == trim_end_spec(s.drop_last()));
        let t = s.drop_last();
        lemma_trim_end_skip(t, j);
        assert(t.subrange(0, j) =~= s.subrange(0, j));
    }
}

/// A sequence that does not end with a space is already trim-ended.
proof fn lemma_trim_end_noop(s: Seq<u8>)
    requires
        s.len() == 0 || !is_ascii_space(s.last()),
    ensures
        trim_end_spec(s) == s,
{
}

/// Runtime check for ASCII whitespace.
pub fn is_space_byte(b: u8) -> (r: bool)
    ensures
        r == is_ascii_space(b),
{
    b == 32 || b == 9 || b == 10 || b == 11 || b == 12 || b == 13
}

/// Runtime check for a decimal digit.
pub fn is_digit_byte(b: u8) -> (r: bool)
    ensures
        r == is_ascii_digit(b),
{
    48 <= b && b <= 57
}

/// Remove ASCII whitespace from both ends of `s`.
pub fn trim(s: &[u8]) -> (r: Vec<u8>)
    ensures
        r@ == trim_spec(s@),
{
    let mut lo: usize = 0;
    while lo < s.len() && is_space_byte(s[lo])
        invariant
            lo <= s@.len(),
            forall|k: int| 0 <= k < lo ==> is_ascii_space(#[trigger] s@[k]),
        decreases s@.len() - lo,
    {
        lo = lo + 1;
    }
    let mut hi: usize = s.len();
    while hi > lo && is_space_byte(s[hi - 1])
        invariant
            lo <= hi <= s@.len(),
            forall|k: int| hi <= k < s@.len() ==> is_ascii_space(#[trigger] s@[k]),
        decreases hi,
    {
        hi = hi - 1;
    }
    proof {
        lemma_trim_start_skip(s@, lo as int);
        let t = s@.subrange(lo as int, s@.len() as int);
        if lo < s@.len() {
            assert(!is_ascii_space(t[0]));
        }
        lemma_trim_start_noop(t);
        assert(forall|k: int| hi - lo <= k < t.len() ==> is_ascii_space(#[trigger] t[k]));
        lemma_trim_end_skip(t, hi - lo);
        let u = t.subrange(0, hi - lo);
        if hi > lo {
            assert(u.last() == s@[hi - 1]);
            assert(!is_ascii_space(u.last()));
        }
        lemma_trim_end_noop(u);
        assert(u =~= s@.subrange(lo as int, hi as int));
    }
    slice_to_vec(slice_subrange(s, lo, hi))
}

/// Does `s` begin with `prefix`?
pub fn starts_with(s: &[u8], prefix: &[u8]) -> (r: bool)
    ensures
        r == starts_with_spec(s@, prefix@),
{
    if s.len() < prefix.len() {
        return false;
    }
    let mut i: usize = 0;
    while i < prefix.len()
        invariant
            i <= prefix@.len() <= s@.len(),
            forall|k: int| 0 <= k < i ==> s@[k] == prefix@[k],
        decreases prefix@.len() - i,
    {
        if s[i] != prefix[i] {
            assert(s@.subrange(0, prefix@.len() as int)[i as int] != prefix@[i as int]);
            return false;
        }
        i = i + 1;
    }
    proof {
        assert(s@.subrange(0, prefix@.len() as int) =~= prefix@);
    }
    true
}

/// Find the first occurrence of `b` in `s` at or after index `from`.
pub fn find_byte_from(s: &[u8], from: usize, b: u8) -> (r: Option<usize>)
    requires
        from <= s@.len(),
    ensures
        match r {
            Some(j) => from <= j < s@.len() && s@[j as int] == b && forall|k: int|
                from <= k < j ==> s@[k] != b,
            None => forall|k: int| from <= k < s@.len() ==> s@[k] != b,
        },
{
    let mut i: usize = from;
    while i < s.len()
        invariant
            from <= i <= s@.len(),
            forall|k: int| from <= k < i ==> s@[k] != b,
        decreases s@.len() - i,
    {
        if s[i] == b {
            return Some(i);
        }
        i = i + 1;
    }
    None
}

/// Parse a non-empty, all-digit byte string as a `u64`.
/// Returns `None` when the string is empty, holds a non-digit, or its
/// value does not fit in a `u64`.
pub fn parse_u64_digits(s: &[u8]) -> (r: Option<u64>)
    ensures
        match r {
            Some(v) => s@.len() > 0 && all_digits(s@) && v == digits_value(s@),
            None => s@.len() == 0 || !all_digits(s@) || digits_value(s@) > u64::MAX,
        },
{
    if s.len() == 0 {
        return None;
    }
    let mut acc: u64 = 0;
    let mut i: usize = 0;
    while i < s.len()
        invariant
            i <= s@.len(),
            all_digits(s@.subrange(0, i as int)),
            acc == digits_value(s@.subrange(0, i as int)),
        decreases s@.len() - i,
    {
        let b = s[i];
        if !is_digit_byte(b) {
            return None;
        }
        let d: u64 = (b - 48) as u64;
        if acc > (u64::MAX - d) / 10 {
            proof {
                let p = s@.subrange(0, i as int + 1);
                assert(p.drop_last() =~= s@.subrange(0, i as int));
                assert(p.last() == s@[i as int]);
                assert(digits_value(p) == acc * 10 + d);
                assert(acc >= (u64::MAX - d) / 10 + 1);
                assert(((u64::MAX - d) / 10 + 1) * 10 > u64::MAX - d) by (nonlinear_arith);
                assert(acc * 10 >= ((u64::MAX - d) / 10 + 1) * 10) by (nonlinear_arith)
                    requires
                        acc >= (u64::MAX - d) / 10 + 1,
                ;
                lemma_digits_value_prefix_le(s@, i as int + 1);
            }
            return None;
        }
        proof {
            assert(acc <= (u64::MAX - d) / 10);
            assert((u64::MAX - d) / 10 * 10 <= u64::MAX - d);
            assert(acc * 10 <= (u64::MAX - d) / 10 * 10) by (nonlinear_arith)
                requires
                    acc <= (u64::MAX - d) / 10,
            ;
            let p = s@.subrange(0, i as int + 1);
            assert(p.drop_last() =~= s@.subrange(0, i as int));
            assert(p.last() == s@[i as int]);
        }
        acc = acc * 10 + d;
        i = i + 1;
    }
    proof {
        assert(s@.subrange(0, s@.len() as int) =~= s@);
    }
    Some(acc)
}

/// The value of a digit-string prefix never exceeds the whole string's value.
pub proof fn lemma_digits_value_prefix_le(s: Seq<u8>, i: int)
    requires
        0 <= i <= s.len(),
        all_digits(s.subrange(0, i)),
    ensures
        digits_value(s.subrange(0, i)) <= digits_value(s) || !all_digits(s),
    decreases s.len() - i,
{
    if i < s.len() {
        if all_digits(s) {
            assert(all_digits(s.subrange(0, i + 1)));
            lemma_digits_value_prefix_le(s, i + 1);
            let p = s.subrange(0, i + 1);
            assert(p.drop_last() =~= s.subrange(0, i));
            assert(is_ascii_digit(p.last()));
            assert(digits_value(p) == digits_value(s.subrange(0, i)) * 10 + (p.last() - 48));
            assert(digits_value(s.subrange(0, i)) * 10 >= digits_value(s.subrange(0, i)))
                by (nonlinear_arith);
        }
    } else {
        assert(s.subrange(0, s.len() as int) =~= s);
    }
}

} // verus!
