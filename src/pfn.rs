use vstd::prelude::*;
use crate::residency::PfnRange;

verus! {

/// ASCII whitespace: space, tab, line feed, vertical tab, form feed, carriage return.
pub open spec fn is_space(b: u8) -> bool {
    b == 32u8 || (9u8 <= b && b <= 13u8)
}

pub open spec fn is_digit(b: u8) -> bool {
    48u8 <= b && b <= 57u8
}

/// The first position at or after `i` that holds no whitespace, or the end.
pub open spec fn skip_space(s: Seq<u8>, i: int) -> int
    decreases s.len() - i,
{
    if i < 0 || i >= s.len() || !is_space(s[i]) {
        i
    } else {
        skip_space(s, i + 1)
    }
}

/// The first position at or after `i` that holds whitespace, or the end.
pub open spec fn token_end(s: Seq<u8>, i: int) -> int
    decreases s.len() - i,
{
    if i < 0 || i >= s.len() || is_space(s[i]) {
        i
    } else {
        token_end(s, i + 1)
    }
}

/// Every byte of `s[lo..hi]` is a decimal digit.
pub open spec fn all_digits(s: Seq<u8>, lo: int, hi: int) -> bool {
    forall|j: int| lo <= j < hi ==> is_digit(#[trigger] s[j])
}

/// The number that the decimal digits `s[lo..hi]` write.
pub open spec fn decimal(s: Seq<u8>, lo: int, hi: int) -> nat
    decreases hi - lo,
{
    if hi <= lo {
        0
    } else {
        decimal(s, lo, hi - 1) * 10 + (s[hi - 1] - 48) as nat
    }
}

/// The number that the token `s[lo..hi]` writes, when it is a non-empty run of
/// digits whose value fits in 64 bits.
pub open spec fn token_value(s: Seq<u8>, lo: int, hi: int) -> Option<u64> {
    if lo < hi && all_digits(s, lo, hi) && decimal(s, lo, hi) <= u64::MAX {
        Some(decimal(s, lo, hi) as u64)
    } else {
        None
    }
}

/// The frame range written as the first two whitespace-separated decimal
/// integers of `s`; anything after them is ignored.
pub open spec fn spec_parse_pfn_range(s: Seq<u8>) -> Option<PfnRange> {
    let a0 = skip_space(s, 0);
    let a1 = token_end(s, a0);
    let b0 = skip_space(s, a1);
    let b1 = token_end(s, b0);
    match (token_value(s, a0, a1), token_value(s, b0, b1)) {
        (Some(start), Some(end)) => Some(PfnRange { start, end }),
        _ => None,
    }
}

fn skip_space_from(s: &[u8], i: usize) -> (r: usize)
    requires
        i <= s@.len(),
    ensures
        r == skip_space(s@, i as int),
        i <= r <= s@.len(),
{
    let mut k: usize = i;
    while k < s.len() && (s[k] == 32u8 || (9u8 <= s[k] && s[k] <= 13u8))
        invariant
            i <= k <= s@.len(),
            skip_space(s@, k as int) == skip_space(s@, i as int),
        decreases s@.len() - k,
    {
        k = k + 1;
    }
    k
}

fn token_end_from(s: &[u8], i: usize) -> (r: usize)
    requires
        i <= s@.len(),
    ensures
        r == token_end(s@, i as int),
        i <= r <= s@.len(),
{
    let mut k: usize = i;
    while k < s.len() && !(s[k] == 32u8 || (9u8 <= s[k] && s[k] <= 13u8))
        invariant
            i <= k <= s@.len(),
            token_end(s@, k as int) == token_end(s@, i as int),
        decreases s@.len() - k,
    {
        k = k + 1;
    }
    k
}

proof fn lemma_decimal_grows(s: Seq<u8>, lo: int, hi: int)
    requires
        lo <= hi,
    ensures
        decimal(s, lo, hi) <= decimal(s, lo, hi + 1),
{
}

fn parse_token(s: &[u8], lo: usize, hi: usize) -> (r: Option<u64>)
    requires
        lo <= hi <= s@.len(),
    ensures
        r == token_value(s@, lo as int, hi as int),
{
    if lo == hi {
        return None;
    }
    let mut v: u64 = 0;
    let mut k: usize = lo;
    while k < hi
        invariant
            lo <= k <= hi <= s@.len(),
            all_digits(s@, lo as int, k as int),
            v == decimal(s@, lo as int, k as int),
        decreases hi - k,
    {
        let b = s[k];
        if !(48u8 <= b && b <= 57u8) {
            return None;
        }
        let d: u64 = (b - 48u8) as u64;
        if v > (u64::MAX - d) / 10 {
            proof {
                assert(decimal(s@, lo as int, k + 1) > u64::MAX);
                lemma_decimal_beyond(s@, lo as int, k + 1, hi as int);
            }
            return None;
        }
        v = v * 10 + d;
        k = k + 1;
    }
    Some(v)
}

proof fn lemma_decimal_beyond(s: Seq<u8>, lo: int, k: int, hi: int)
    requires
        lo <= k <= hi,
        decimal(s, lo, k) > u64::MAX,
    ensures
        decimal(s, lo, hi) > u64::MAX,
    decreases hi - k,
{
    if k < hi {
        lemma_decimal_grows(s, lo, k);
        lemma_decimal_beyond(s, lo, k + 1, hi);
    }
}

/// Reads the fast-tier frame range from a helper's output: two
/// whitespace-separated decimal integers, `start` then `end`.
pub fn parse_pfn_range(s: &[u8]) -> (r: Option<PfnRange>)
    ensures
        r == spec_parse_pfn_range(s@),
{
    let a0 = skip_space_from(s, 0);
    let a1 = token_end_from(s, a0);
    let b0 = skip_space_from(s, a1);
    let b1 = token_end_from(s, b0);
    match (parse_token(s, a0, a1), parse_token(s, b0, b1)) {
        (Some(start), Some(end)) => Some(PfnRange { start, end }),
        _ => None,
    }
}

} // verus!
