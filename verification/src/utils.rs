//! Small verified helpers shared by the simulation and the trainer.

use vstd::prelude::*;
use vstd::arithmetic::div_mod::{
    lemma_div_is_ordered,
    lemma_div_pos_is_pos,
    lemma_fundamental_div_mod,
};
use vstd::arithmetic::mul::{
    lemma_mul_inequality,
    lemma_mul_is_commutative,
    lemma_mul_is_distributive_add,
    lemma_mul_nonnegative,
    lemma_mul_upper_bound,
};
use vstd::string::StringSliceAdditionalSpecFns;

verus! {

// --------------------------------------------------------------------------
// Seed bytes
// --------------------------------------------------------------------------

/// The UTF-8 bytes of a seed string, left-aligned in a 32-byte array,
/// zero-padded or truncated.
pub open spec fn spec_str_to_u8_array(bytes: Seq<u8>) -> Seq<u8> {
    Seq::new(32, |i: int| if i < bytes.len() { bytes[i] } else { 0u8 })
}

/// Convert a string to a 32-byte seed array: copy its UTF-8 bytes
/// left-aligned, zero-padding or truncating to exactly 32 bytes.
pub fn str_to_u8_array(input: &str) -> (r: [u8; 32])
    ensures
        r@ == spec_str_to_u8_array(input.spec_bytes()),
{
    let bytes = input.as_bytes();
    let mut result = [0u8; 32];
    let len: usize = if bytes.len() < 32 {
        bytes.len()
    } else {
        32
    };
    let mut i: usize = 0;
    while i < len
        invariant
            len <= 32,
            len <= bytes@.len(),
            bytes@ == input.spec_bytes(),
            i <= len,
            result@.len() == 32,
            forall|j: int| 0 <= j < i ==> result@[j] == bytes@[j],
            forall|j: int| i <= j < 32 ==> result@[j] == 0u8,
        decreases len - i,
    {
        result[i] = bytes[i];
        i = i + 1;
    }
    proof {
        assert(result@ =~= spec_str_to_u8_array(input.spec_bytes()));
    }
    result
}

// --------------------------------------------------------------------------
// Scaled interval ("staircase") function
// --------------------------------------------------------------------------

/// Mathematical model of `get_scale_value`: a monotonic staircase clamped to
/// `[min, max]`.  Every `score_interval` points the value moves one `step`
/// away from its starting edge (`min` normally, `max` when `reverse`).
pub open spec fn spec_scale_value(
    max: u64,
    min: u64,
    scale_interval: u64,
    score: u64,
    score_interval: u64,
    reverse: bool,
) -> int
    recommends
        min <= max,
        score_interval >= 1,
{
    let buckets = score as int / score_interval as int;
    if reverse {
        vstd::math::max(min as int, max - scale_interval * buckets)
    } else {
        vstd::math::min(max as int, min + scale_interval * buckets)
    }
}

/// Apply the score to the scale: starting from `min` (or from `max` when
/// `reverse`), move `scale_interval` per full `score_interval` bucket,
/// clamped so the result never leaves `[min, max]`.
pub fn get_scale_value(
    max: u64,
    min: u64,
    scale_interval: u64,
    score: u64,
    score_interval: u64,
    reverse: bool,
) -> (r: u64)
    requires
        min <= max,
        score_interval >= 1,
    ensures
        r as int == spec_scale_value(max, min, scale_interval, score, score_interval, reverse),
        min <= r <= max,
{
    let buckets = score / score_interval;
    let span = max - min;
    let delta: u64;
    if scale_interval == 0 {
        proof {
            assert(scale_interval as int * buckets as int == 0) by (nonlinear_arith)
                requires
                    scale_interval == 0,
            ;
        }
        delta = 0;
    } else if buckets <= span / scale_interval {
        proof {
            lemma_mul_div_le(span as int, scale_interval as int);
            lemma_mul_inequality(
                buckets as int,
                span as int / scale_interval as int,
                scale_interval as int,
            );
            lemma_mul_is_commutative(scale_interval as int, buckets as int);
            lemma_mul_is_commutative(scale_interval as int, span as int / scale_interval as int);
        }
        delta = scale_interval * buckets;
    } else {
        proof {
            lemma_div_mul_gt(span as int, scale_interval as int, buckets as int);
        }
        delta = span;
    }
    assert(delta == vstd::math::min(span as int, scale_interval as int * buckets as int));
    if reverse {
        max - delta
    } else {
        min + delta
    }
}

/// Multiplying back a quotient never exceeds the dividend:
/// `b * (a / b) <= a` for non-negative `a` and positive `b`.
proof fn lemma_mul_div_le(a: int, b: int)
    requires
        a >= 0,
        b >= 1,
    ensures
        b * (a / b) <= a,
{
    lemma_fundamental_div_mod(a, b);
}

/// Anything strictly above the quotient multiplies back to strictly more
/// than the dividend: `c > a / b ==> b * c > a`.
proof fn lemma_div_mul_gt(a: int, b: int, c: int)
    requires
        a >= 0,
        b >= 1,
        c > a / b,
    ensures
        b * c > a,
{
    lemma_fundamental_div_mod(a, b);
    lemma_div_pos_is_pos(a, b);
    lemma_mul_inequality(a / b + 1, c, b);
    lemma_mul_is_distributive_add(b, a / b, 1);
    lemma_mul_is_commutative(a / b + 1, b);
    lemma_mul_is_commutative(a / b, b);
}

/// The staircase law: with `reverse == false` the scale is non-decreasing in
/// the score and bounded above by `max`; with `reverse == true` it is
/// non-increasing and bounded below by `min`.
pub proof fn lemma_scale_value_monotonic(
    max: u64,
    min: u64,
    scale_interval: u64,
    score1: u64,
    score2: u64,
    score_interval: u64,
    reverse: bool,
)
    requires
        min <= max,
        score_interval >= 1,
        score1 <= score2,
    ensures
        min <= spec_scale_value(max, min, scale_interval, score1, score_interval, reverse) <= max,
        !reverse ==> spec_scale_value(max, min, scale_interval, score1, score_interval, false)
            <= spec_scale_value(max, min, scale_interval, score2, score_interval, false),
        reverse ==> spec_scale_value(max, min, scale_interval, score1, score_interval, true)
            >= spec_scale_value(max, min, scale_interval, score2, score_interval, true),
{
    lemma_div_is_ordered(score1 as int, score2 as int, score_interval as int);
    let b1 = score1 as int / score_interval as int;
    let b2 = score2 as int / score_interval as int;
    lemma_div_pos_is_pos(score1 as int, score_interval as int);
    lemma_mul_inequality(b1, b2, scale_interval as int);
    lemma_mul_is_commutative(scale_interval as int, b1);
    lemma_mul_is_commutative(scale_interval as int, b2);
    lemma_mul_nonnegative(scale_interval as int, b1);
}

// --------------------------------------------------------------------------
// Axis-aligned bounding-box collision
// --------------------------------------------------------------------------

/// Coordinate magnitudes stay below this bound so that edge sums never
/// overflow an `i64`.
pub const COORD_LIMIT: i64 = 0x4000_0000_0000;

/// Two axis-aligned rectangles overlap (touching edges count as overlap).
pub open spec fn spec_check_collision(
    x1: int,
    y1: int,
    width1: int,
    height1: int,
    x2: int,
    y2: int,
    width2: int,
    height2: int,
) -> bool {
    !(x1 + width1 < x2 || x1 > x2 + width2 || y1 + height1 < y2 || y1 > y2 + height2)
}

/// Axis-aligned bounding-box test between two rectangles given by their
/// bottom-left corner and size.
pub fn check_collision(
    x1: i64,
    y1: i64,
    width1: i64,
    height1: i64,
    x2: i64,
    y2: i64,
    width2: i64,
    height2: i64,
) -> (r: bool)
    requires
        -COORD_LIMIT <= x1 <= COORD_LIMIT,
        -COORD_LIMIT <= y1 <= COORD_LIMIT,
        0 <= width1 <= COORD_LIMIT,
        0 <= height1 <= COORD_LIMIT,
        -COORD_LIMIT <= x2 <= COORD_LIMIT,
        -COORD_LIMIT <= y2 <= COORD_LIMIT,
        0 <= width2 <= COORD_LIMIT,
        0 <= height2 <= COORD_LIMIT,
    ensures
        r == spec_check_collision(
            x1 as int,
            y1 as int,
            width1 as int,
            height1 as int,
            x2 as int,
            y2 as int,
            width2 as int,
            height2 as int,
        ),
{
    let right1 = x1 + width1;
    let bottom1 = y1 + height1;
    let right2 = x2 + width2;
    let bottom2 = y2 + height2;
    !(right1 < x2 || x1 > right2 || bottom1 < y2 || y1 > bottom2)
}

/// The collision test is symmetric in its two rectangles.
pub proof fn lemma_check_collision_symmetric(
    x1: int,
    y1: int,
    width1: int,
    height1: int,
    x2: int,
    y2: int,
    width2: int,
    height2: int,
)
    ensures
        spec_check_collision(x1, y1, width1, height1, x2, y2, width2, height2)
            == spec_check_collision(x2, y2, width2, height2, x1, y1, width1, height1),
{
}

// --------------------------------------------------------------------------
// Batch removal by pre-recorded indexes
// --------------------------------------------------------------------------

/// Model of `remove_indexes` from position `k` on, with `nb` elements
/// already removed: each recorded index is shifted left by the number of
/// removals made before it, and out-of-range indexes are skipped.
pub open spec fn spec_remove_indexes_from<T>(v: Seq<T>, idx: Seq<usize>, k: int, nb: int) -> Seq<T>
    decreases idx.len() - k,
{
    if k < 0 || k >= idx.len() {
        v
    } else {
        let i = idx[k] as int - nb;
        if i < v.len() {
            spec_remove_indexes_from(v.remove(i), idx, k + 1, nb + 1)
        } else {
            spec_remove_indexes_from(v, idx, k + 1, nb)
        }
    }
}

/// What is left of `v` after removing the elements at the recorded indexes.
pub open spec fn spec_remove_indexes<T>(v: Seq<T>, idx: Seq<usize>) -> Seq<T> {
    spec_remove_indexes_from(v, idx, 0, 0)
}

/// A strictly increasing sequence of indexes grows at least as fast as its
/// position: `idx[k] >= k`.
proof fn lemma_strict_inc_lower_bound(idx: Seq<usize>, k: int)
    requires
        forall|k1: int, k2: int| 0 <= k1 < k2 < idx.len() ==> idx[k1] < idx[k2],
        0 <= k < idx.len(),
    ensures
        idx[k] >= k,
    decreases k,
{
    if k > 0 {
        lemma_strict_inc_lower_bound(idx, k - 1);
    }
}

/// Remove the elements of `vec` at the given indexes, which were recorded
/// against the vector before any removal and must be strictly increasing.
pub fn remove_indexes<T>(vec: &mut Vec<T>, indexes: &Vec<usize>)
    requires
        forall|k1: int, k2: int| 0 <= k1 < k2 < indexes@.len() ==> indexes@[k1] < indexes@[k2],
    ensures
        final(vec)@ == spec_remove_indexes(old(vec)@, indexes@),
{
    let ghost orig = vec@;
    let mut nb_removed: usize = 0;
    let mut k: usize = 0;
    while k < indexes.len()
        invariant
            forall|k1: int, k2: int| 0 <= k1 < k2 < indexes@.len() ==> indexes@[k1] < indexes@[k2],
            k <= indexes@.len(),
            nb_removed <= k,
            spec_remove_indexes(orig, indexes@)
                == spec_remove_indexes_from(vec@, indexes@, k as int, nb_removed as int),
        decreases indexes@.len() - k,
    {
        let i = indexes[k];
        proof {
            lemma_strict_inc_lower_bound(indexes@, k as int);
        }
        if i - nb_removed < vec.len() {
            vec.remove(i - nb_removed);
            nb_removed = nb_removed + 1;
        }
        k = k + 1;
    }
}

// --------------------------------------------------------------------------
// Integer square root
// --------------------------------------------------------------------------

/// `r` is the floor of the square root of `n`.
pub open spec fn is_isqrt(n: nat, r: nat) -> bool {
    r * r <= n < (r + 1) * (r + 1)
}

/// The floor of the square root of `n`.
pub open spec fn spec_isqrt(n: nat) -> nat {
    choose|r: nat| is_isqrt(n, r)
}

/// The floor square root is unique.
pub proof fn lemma_isqrt_unique(n: nat, r: nat)
    requires
        is_isqrt(n, r),
    ensures
        r == spec_isqrt(n),
{
    let r2 = spec_isqrt(n);
    assert(is_isqrt(n, r2));
    if r < r2 {
        lemma_mul_inequality(r as int + 1, r2 as int, r as int + 1);
        lemma_mul_inequality(r as int + 1, r2 as int, r2 as int);
        assert(false);
    }
    if r2 < r {
        lemma_mul_inequality(r2 as int + 1, r as int, r2 as int + 1);
        lemma_mul_inequality(r2 as int + 1, r as int, r as int);
        assert(false);
    }
}

/// Floor of the square root of `n`, by binary search.
pub fn isqrt(n: u64) -> (r: u64)
    ensures
        is_isqrt(n as nat, r as nat),
        r as nat == spec_isqrt(n as nat),
{
    let mut lo: u64 = 0;
    let mut hi: u64 = 0x1_0000_0000;
    proof {
        assert((0x1_0000_0000int) * (0x1_0000_0000int) == 0x1_0000_0000_0000_0000int)
            by (nonlinear_arith);
    }
    while hi - lo > 1
        invariant
            lo < hi <= 0x1_0000_0000,
            lo * lo <= n,
            n < hi * hi,
        decreases hi - lo,
    {
        let mid = lo + (hi - lo) / 2;
        proof {
            lemma_mul_upper_bound(mid as int, 0x1_0000_0000int, mid as int, 0x1_0000_0000int);
            assert((0x1_0000_0000int) * (0x1_0000_0000int) == 0x1_0000_0000_0000_0000int)
                by (nonlinear_arith);
        }
        let sq = (mid as u128) * (mid as u128);
        if sq <= n as u128 {
            lo = mid;
        } else {
            hi = mid;
        }
    }
    proof {
        lemma_isqrt_unique(n as nat, lo as nat);
    }
    lo
}

// --------------------------------------------------------------------------
// Saturating arithmetic (used by the energy metric)
// --------------------------------------------------------------------------

/// `a + b`, saturating at `u64::MAX`.
pub open spec fn spec_sat_add(a: u64, b: u64) -> u64 {
    if a + b > u64::MAX {
        u64::MAX
    } else {
        (a + b) as u64
    }
}

/// Saturating addition.
pub fn sat_add(a: u64, b: u64) -> (r: u64)
    ensures
        r == spec_sat_add(a, b),
{
    if a <= u64::MAX - b {
        a + b
    } else {
        u64::MAX
    }
}

/// `a * b`, saturating at `u64::MAX`.
pub open spec fn spec_sat_mul(a: u64, b: u64) -> u64 {
    if a * b > u64::MAX {
        u64::MAX
    } else {
        (a * b) as u64
    }
}

/// Saturating multiplication.
pub fn sat_mul(a: u64, b: u64) -> (r: u64)
    ensures
        r == spec_sat_mul(a, b),
{
    proof {
        lemma_mul_upper_bound(a as int, u64::MAX as int, b as int, u64::MAX as int);
        assert((u64::MAX as int) * (u64::MAX as int) < 0x1_0000_0000_0000_0000_0000_0000_0000_0000int)
            by (nonlinear_arith);
    }
    let wide = (a as u128) * (b as u128);
    if wide > u64::MAX as u128 {
        u64::MAX
    } else {
        wide as u64
    }
}

} // verus!
