//! Order statistics and moments over windows of RTT samples, in microseconds.
use vstd::prelude::*;
use vstd::multiset::Multiset;
use vstd::relations::{sorted_by, total_ordering};

verus! {

/// The replies of a window, in order: every `Some` entry, unwrapped.
pub open spec fn valid_samples(h: Seq<Option<u32>>) -> Seq<u32>
    decreases h.len(),
{
    if h.len() == 0 {
        Seq::empty()
    } else {
        let rest = valid_samples(h.drop_last());
        match h.last() {
            Some(v) => rest.push(v),
            None => rest,
        }
    }
}

/// Sum of a sequence.
pub open spec fn seq_sum(s: Seq<u32>) -> int
    decreases s.len(),
{
    if s.len() == 0 {
        0
    } else {
        seq_sum(s.drop_last()) + s.last()
    }
}

/// Arithmetic mean, rounded down; 0 for an empty sequence.
pub open spec fn mean_of(s: Seq<u32>) -> int {
    if s.len() == 0 {
        0
    } else {
        seq_sum(s) / (s.len() as int)
    }
}

/// Smallest element; 0 for an empty sequence.
pub open spec fn min_of(s: Seq<u32>) -> int
    decreases s.len(),
{
    if s.len() == 0 {
        0
    } else if s.len() == 1 {
        s[0] as int
    } else {
        let m = min_of(s.drop_last());
        if s.last() < m {
            s.last() as int
        } else {
            m
        }
    }
}

/// Largest element; 0 for an empty sequence.
pub open spec fn max_of(s: Seq<u32>) -> int
    decreases s.len(),
{
    if s.len() == 0 {
        0
    } else {
        let m = max_of(s.drop_last());
        if s.last() > m {
            s.last() as int
        } else {
            m
        }
    }
}

/// Sum of squared deviations from `m`.
pub open spec fn sq_dev_sum(s: Seq<u32>, m: int) -> int
    decreases s.len(),
{
    if s.len() == 0 {
        0
    } else {
        sq_dev_sum(s.drop_last(), m) + (s.last() - m) * (s.last() - m)
    }
}

/// Population variance about `m` (divided by the count), rounded down.
pub open spec fn variance_of(s: Seq<u32>, m: int) -> int {
    if s.len() == 0 {
        0
    } else {
        sq_dev_sum(s, m) / (s.len() as int)
    }
}

/// `r` is the integer square root of `v`, rounded down.
pub open spec fn is_isqrt(r: int, v: int) -> bool {
    0 <= r && r * r <= v < (r + 1) * (r + 1)
}

/// Ascending order on samples.
pub open spec fn ascending() -> spec_fn(u32, u32) -> bool {
    |a: u32, b: u32| a <= b
}

/// The sequence sorted ascending.
pub open spec fn sorted_of(s: Seq<u32>) -> Seq<u32> {
    s.sort_by(ascending())
}

/// Percentile `p` (0 to 100) of an ascending sequence, by linear interpolation
/// between the neighbours of rank `p/100 * (n - 1)`, rounded down; 0 when empty.
pub open spec fn percentile_of_sorted(t: Seq<u32>, p: int) -> int {
    if t.len() == 0 {
        0
    } else {
        let pos = p * (t.len() - 1);
        let base = pos / 100;
        let frac = pos % 100;
        if base + 1 < t.len() {
            t[base] + frac * (t[base + 1] - t[base]) / 100
        } else {
            t[base] as int
        }
    }
}

/// Percentile `p` (0 to 100) of a sequence in any order.
pub open spec fn percentile_of(s: Seq<u32>, p: int) -> int {
    percentile_of_sorted(sorted_of(s), p)
}

proof fn lemma_ascending_total()
    ensures
        total_ordering(ascending()),
{
}

proof fn lemma_sum_bound(s: Seq<u32>)
    ensures
        0 <= seq_sum(s) <= s.len() * (u32::MAX as int),
    decreases s.len(),
{
    if s.len() > 0 {
        lemma_sum_bound(s.drop_last());
    }
}

proof fn lemma_sq_dev_bound(s: Seq<u32>, m: u32)
    ensures
        0 <= sq_dev_sum(s, m as int) <= s.len() * (u32::MAX as int) * (u32::MAX as int),
    decreases s.len(),
{
    if s.len() > 0 {
        lemma_sq_dev_bound(s.drop_last(), m);
        let d = s.last() - m;
        assert(0 <= d * d <= (u32::MAX as int) * (u32::MAX as int)) by (nonlinear_arith)
            requires
                -(u32::MAX as int) <= d <= u32::MAX,
        ;
        assert(s.len() * (u32::MAX as int) * (u32::MAX as int) == (s.len() - 1) * (
        u32::MAX as int) * (u32::MAX as int) + (u32::MAX as int) * (u32::MAX as int))
            by (nonlinear_arith);
    }
}

/// The replies of a window, in order.
pub fn valid_rtts(h: &[Option<u32>]) -> (v: Vec<u32>)
    ensures
        v@ == valid_samples(h@),
{
    let mut v: Vec<u32> = Vec::new();
    let mut i: usize = 0;
    while i < h.len()
        invariant
            i <= h.len(),
            v@ == valid_samples(h@.subrange(0, i as int)),
        decreases h.len() - i,
    {
        assert(h@.subrange(0, i + 1).drop_last() =~= h@.subrange(0, i as int));
        if let Some(x) = h[i] {
            v.push(x);
        }
        i = i + 1;
    }
    assert(h@.subrange(0, h.len() as int) =~= h@);
    v
}

/// Mean of a non-empty window of at most `u32::MAX` samples, rounded down.
pub fn mean_rtt(s: &[u32]) -> (r: u32)
    requires
        0 < s@.len() <= u32::MAX,
    ensures
        r == mean_of(s@),
{
    let mut sum: u64 = 0;
    let mut i: usize = 0;
    while i < s.len()
        invariant
            i <= s.len() <= u32::MAX,
            sum == seq_sum(s@.subrange(0, i as int)),
        decreases s.len() - i,
    {
        assert(s@.subrange(0, i + 1).drop_last() =~= s@.subrange(0, i as int));
        proof {
            lemma_sum_bound(s@.subrange(0, i as int));
            assert(i * (u32::MAX as int) + u32::MAX <= (u32::MAX as int) * (u32::MAX as int))
                by (nonlinear_arith)
                requires
                    i < u32::MAX,
            ;
        }
        sum = sum + s[i] as u64;
        i = i + 1;
    }
    assert(s@.subrange(0, s.len() as int) =~= s@);
    proof {
        lemma_sum_bound(s@);
        vstd::arithmetic::div_mod::lemma_div_is_ordered(
            seq_sum(s@),
            s@.len() * (u32::MAX as int),
            s@.len() as int,
        );
        vstd::arithmetic::div_mod::lemma_div_by_multiple(u32::MAX as int, s@.len() as int);
        vstd::arithmetic::mul::lemma_mul_is_commutative(u32::MAX as int, s@.len() as int);
    }
    (sum / s.len() as u64) as u32
}

/// Smallest and largest sample of a window.
pub fn min_max_rtt(s: &[u32]) -> (r: (u32, u32))
    ensures
        r.0 == min_of(s@),
        r.1 == max_of(s@),
{
    let mut lo: u32 = 0;
    let mut hi: u32 = 0;
    let mut i: usize = 0;
    while i < s.len()
        invariant
            i <= s.len(),
            lo == min_of(s@.subrange(0, i as int)),
            hi == max_of(s@.subrange(0, i as int)),
        decreases s.len() - i,
    {
        assert(s@.subrange(0, i + 1).drop_last() =~= s@.subrange(0, i as int));
        if i == 0 || s[i] < lo {
            lo = s[i];
        }
        if s[i] > hi {
            hi = s[i];
        }
        i = i + 1;
    }
    assert(s@.subrange(0, s.len() as int) =~= s@);
    (lo, hi)
}

/// Integer square root, rounded down.
pub fn isqrt(v: u64) -> (r: u32)
    ensures
        is_isqrt(r as int, v as int),
{
    let mut lo: u64 = 0;
    let mut hi: u64 = 0x1_0000_0000;
    assert(v < hi * hi) by (nonlinear_arith)
        requires
            hi == 0x1_0000_0000,
            v <= u64::MAX,
    ;
    while hi - lo > 1
        invariant
            lo < hi <= 0x1_0000_0000,
            lo * lo <= v,
            v < hi * hi,
        decreases hi - lo,
    {
        let mid: u64 = lo + (hi - lo) / 2;
        assert(mid * mid <= 0xffff_ffff * 0xffff_ffff) by (nonlinear_arith)
            requires
                mid <= 0xffff_ffff,
        ;
        if mid * mid <= v {
            lo = mid;
        } else {
            hi = mid;
        }
    }
    assert(hi == lo + 1);
    lo as u32
}

/// Population standard deviation about `m`, rounded down.
pub fn stddev_rtt(s: &[u32], m: u32) -> (r: u32)
    requires
        0 < s@.len() <= 300,
    ensures
        is_isqrt(r as int, variance_of(s@, m as int)),
{
    let mut acc: u128 = 0;
    let mut i: usize = 0;
    while i < s.len()
        invariant
            i <= s.len() <= 300,
            acc == sq_dev_sum(s@.subrange(0, i as int), m as int),
        decreases s.len() - i,
    {
        assert(s@.subrange(0, i + 1).drop_last() =~= s@.subrange(0, i as int));
        proof {
            lemma_sq_dev_bound(s@.subrange(0, i + 1), m);
        }
        let x = s[i];
        let d: u64 = if x >= m {
            (x - m) as u64
        } else {
            (m - x) as u64
        };
        assert(d * d == (x - m) * (x - m)) by (nonlinear_arith)
            requires
                d == x - m || d == m - x,
        ;
        assert(d * d <= 0xffff_ffff * 0xffff_ffff) by (nonlinear_arith)
            requires
                d <= 0xffff_ffff,
        ;
        acc = acc + (d * d) as u128;
        i = i + 1;
    }
    assert(s@.subrange(0, s.len() as int) =~= s@);
    proof {
        lemma_sq_dev_bound(s@, m);
        let bound = (u32::MAX as int) * (u32::MAX as int);
        vstd::arithmetic::div_mod::lemma_div_is_ordered(
            sq_dev_sum(s@, m as int),
            s@.len() * bound,
            s@.len() as int,
        );
        assert(s@.len() * (u32::MAX as int) * (u32::MAX as int) == bound * s@.len())
            by (nonlinear_arith)
            requires
                bound == (u32::MAX as int) * (u32::MAX as int),
        ;
        vstd::arithmetic::div_mod::lemma_div_by_multiple(bound, s@.len() as int);
    }
    let variance: u128 = acc / s.len() as u128;
    isqrt(variance as u64)
}

/// A copy of the samples, sorted ascending.
pub fn sorted_rtts(s: &[u32]) -> (t: Vec<u32>)
    ensures
        t@ == sorted_of(s@),
{
    let mut t: Vec<u32> = Vec::new();
    let mut k: usize = 0;
    proof {
        broadcast use vstd::multiset::group_multiset_axioms;

        assert(t@.to_multiset() =~= Multiset::empty()) by {
            vstd::seq_lib::to_multiset_len(t@);
        }
        assert(s@.subrange(0, 0).to_multiset() =~= Multiset::empty()) by {
            vstd::seq_lib::to_multiset_len(s@.subrange(0, 0));
        }
    }
    while k < s.len()
        invariant
            k <= s.len(),
            sorted_by(t@, ascending()),
            t@.to_multiset() == s@.subrange(0, k as int).to_multiset(),
        decreases s.len() - k,
    {
        let x = s[k];
        let mut i: usize = 0;
        while i < t.len() && t[i] <= x
            invariant
                i <= t.len(),
                forall|j: int| 0 <= j < i ==> t@[j] <= x,
            decreases t.len() - i,
        {
            i = i + 1;
        }
        let ghost before = t@;
        t.insert(i, x);
        proof {
            assert(t@ == before.insert(i as int, x));
            assert forall|a: int, b: int| 0 <= a < b < t@.len() implies #[trigger] (ascending())(
                t@[a],
                t@[b],
            ) by {
                if b < i {
                    assert((ascending())(before[a], before[b]));
                } else if a < i && b == i {
                } else if a < i {
                    assert(t@[b] == before[b - 1]);
                    assert((ascending())(before[i as int], before[b - 1]) || b - 1 == i);
                } else if a == i {
                    assert(t@[b] == before[b - 1]);
                    assert((ascending())(before[i as int], before[b - 1]) || b - 1 == i);
                } else {
                    assert((ascending())(before[a - 1], before[b - 1]));
                }
            }
            assert(s@.subrange(0, k + 1) =~= s@.subrange(0, k as int).push(x));
            vstd::seq_lib::to_multiset_insert(before, i as int, x);
            vstd::seq_lib::to_multiset_build(s@.subrange(0, k as int), x);
        }
        k = k + 1;
    }
    proof {
        assert(s@.subrange(0, s.len() as int) =~= s@);
        lemma_ascending_total();
        s@.lemma_sort_by_ensures(ascending());
        vstd::seq_lib::lemma_sorted_unique(t@, sorted_of(s@), ascending());
    }
    t
}

/// Percentile `percentile` (0 to 100) of the samples, by linear interpolation
/// between sorted neighbours, rounded down; 0 for no samples.
pub fn calculate_percentile(data: &[u32], percentile: u32) -> (r: u32)
    requires
        percentile <= 100,
    ensures
        r == percentile_of(data@, percentile as int),
{
    proof {
        lemma_ascending_total();
        data@.lemma_sort_by_ensures(ascending());
        vstd::seq_lib::to_multiset_len(data@);
        vstd::seq_lib::to_multiset_len(sorted_of(data@));
    }
    if data.len() == 0 {
        return 0;
    }
    let t = sorted_rtts(data);
    let n: usize = t.len();
    assert(percentile * (n - 1) <= 100 * (usize::MAX as int)) by (nonlinear_arith)
        requires
            percentile <= 100,
            1 <= n <= usize::MAX,
    ;
    let pos: u128 = percentile as u128 * (n - 1) as u128;
    let base: u128 = pos / 100;
    let frac: u128 = pos % 100;
    assert(base <= n - 1) by (nonlinear_arith)
        requires
            pos == percentile * (n - 1),
            percentile <= 100,
            base == pos / 100,
            n >= 1,
    ;
    let b: usize = base as usize;
    if b + 1 < n {
        let lo = t[b];
        let hi = t[b + 1];
        assert((ascending())(t@[b as int], t@[b + 1]));
        assert(frac * (hi - lo) <= 100 * (u32::MAX as int)) by (nonlinear_arith)
            requires
                frac < 100,
                0 <= hi - lo <= u32::MAX,
        ;
        let step: u128 = frac * (hi - lo) as u128 / 100;
        assert(step <= hi - lo) by (nonlinear_arith)
            requires
                step == frac * (hi - lo) / 100,
                frac < 100,
                hi >= lo,
        ;
        (lo as u128 + step) as u32
    } else {
        t[b]
    }
}

} // verus!
