//! How much to ask of the source in one fill.
//!
//! A parser that knows how many bytes it misses says so, and a single fill
//! asks for that many, rounded up to a power of two; without an estimate it
//! asks for a chunk of a fixed size. A parse asks for at least that chunk,
//! so that a source is not read a few bytes at a time. No size depends on
//! what the window holds or can hold.

use vstd::prelude::*;

verus! {

/// The size of a fill for a parser that gave no estimate.
pub const DEFAULT_CHUNK: usize = 4096;

/// The first of `p`, `2p`, `4p`, ... that is at least `n`.
pub open spec fn doubled_up_to(p: nat, n: nat) -> nat
    decreases (if n > p { n - p } else { 0 }),
{
    if p == 0 || p >= n {
        p
    } else {
        doubled_up_to(2 * p, n)
    }
}

/// `p` is a power of two.
pub open spec fn is_pow2(p: nat) -> bool
    decreases p,
{
    p == 1 || (p > 1 && p % 2 == 0 && is_pow2(p / 2))
}

/// The least power of two that is at least `n`; 1 for `n == 0`.
pub open spec fn pow2_ceil(n: nat) -> nat {
    doubled_up_to(1, n)
}

/// `n`, or the largest number that a machine word holds where `n` is
/// larger.
pub open spec fn clipped(n: nat) -> nat {
    if n <= usize::MAX {
        n
    } else {
        usize::MAX as nat
    }
}

/// The bytes that a single fill asks for: the parser's estimate rounded up
/// to a power of two, or the default chunk where it gave none.
pub open spec fn fill_size(hint: Option<usize>) -> nat {
    match hint {
        Some(n) => clipped(pow2_ceil(n as nat)),
        None => DEFAULT_CHUNK as nat,
    }
}

/// The bytes that a fill within a parse asks for: what a single fill asks
/// for, and at least the default chunk.
pub open spec fn parse_fill_size(hint: Option<usize>) -> nat {
    if fill_size(hint) >= DEFAULT_CHUNK {
        fill_size(hint)
    } else {
        DEFAULT_CHUNK as nat
    }
}

/// Doubling never goes below where it started, and reaches `n`.
pub proof fn lemma_doubled_at_least(p: nat, n: nat)
    requires
        p > 0,
    ensures
        doubled_up_to(p, n) >= p,
        doubled_up_to(p, n) >= n,
        p < n ==> doubled_up_to(p, n) >= 2 * p,
    decreases (if n > p { n - p } else { 0 }),
{
    if p < n {
        lemma_doubled_at_least(2 * p, n);
    }
}

/// Doubling from a power of two ends at a power of two that is at least
/// `n`, and at the least such: it is where it started, or half of it is
/// below `n`.
pub proof fn lemma_doubled_up_to(p: nat, n: nat)
    requires
        is_pow2(p),
    ensures
        is_pow2(doubled_up_to(p, n)),
        doubled_up_to(p, n) >= p,
        doubled_up_to(p, n) >= n,
        doubled_up_to(p, n) == p || doubled_up_to(p, n) / 2 < n,
    decreases (if n > p { n - p } else { 0 }),
{
    if p < n {
        assert(is_pow2(2 * p)) by {
            assert((2 * p) / 2 == p);
        }
        lemma_doubled_up_to(2 * p, n);
        if doubled_up_to(2 * p, n) == 2 * p {
            assert((2 * p) / 2 == p);
        }
    }
}

/// `pow2_ceil(n)` is a power of two and at least `n`, and no power of two
/// between `n` and it was passed over: it is 1, or half of it is below `n`.
pub proof fn lemma_pow2_ceil(n: nat)
    ensures
        is_pow2(pow2_ceil(n)),
        pow2_ceil(n) >= 1,
        pow2_ceil(n) >= n,
        pow2_ceil(n) == 1 || pow2_ceil(n) / 2 < n,
{
    lemma_doubled_up_to(1, n);
}

/// A fill asks for at least one byte and for at least what the parser
/// misses; within a parse, for at least the default chunk.
pub proof fn lemma_fill_size_bounds(hint: Option<usize>)
    ensures
        1 <= fill_size(hint) <= usize::MAX,
        hint matches Some(n) ==> fill_size(hint) >= n,
        hint matches Some(n) ==> pow2_ceil(n as nat) <= usize::MAX ==> fill_size(hint)
            == pow2_ceil(n as nat),
        DEFAULT_CHUNK <= parse_fill_size(hint) <= usize::MAX,
        parse_fill_size(hint) >= fill_size(hint),
{
    if let Some(n) = hint {
        lemma_pow2_ceil(n as nat);
    }
}

/// The bytes to ask for in a single fill.
pub fn fill_request(hint: Option<usize>) -> (n: usize)
    ensures
        n == fill_size(hint),
{
    match hint {
        None => DEFAULT_CHUNK,
        Some(wanted) => {
            let mut p: usize = 1;
            while p < wanted && p <= usize::MAX / 2
                invariant
                    p >= 1,
                    doubled_up_to(p as nat, wanted as nat) == pow2_ceil(wanted as nat),
                decreases usize::MAX - p,
            {
                p = 2 * p;
            }
            proof {
                lemma_doubled_at_least(p as nat, wanted as nat);
            }
            if p >= wanted {
                p
            } else {
                usize::MAX
            }
        },
    }
}

/// The bytes to ask for in a fill within a parse.
pub fn parse_fill_request(hint: Option<usize>) -> (n: usize)
    ensures
        n == parse_fill_size(hint),
{
    let single = fill_request(hint);
    if single >= DEFAULT_CHUNK {
        single
    } else {
        DEFAULT_CHUNK
    }
}

} // verus!
