//! Summary statistics over run durations, computed exactly: means, medians,
//! variances and ratios are fractions of integers.

use vstd::prelude::*;

verus! {

/// The value `num / den`.
#[derive(Clone, Copy, Debug, PartialEq, Eq, Structural)]
pub struct Fraction {
    pub num: u128,
    pub den: u128,
}

pub open spec fn sum_of(s: Seq<u64>) -> int
    decreases s.len(),
{
    if s.len() == 0 {
        0
    } else {
        sum_of(s.drop_last()) + s.last()
    }
}

pub open spec fn sum_sq(s: Seq<u64>) -> int
    decreases s.len(),
{
    if s.len() == 0 {
        0
    } else {
        sum_sq(s.drop_last()) + s.last() * s.last()
    }
}

pub open spec fn min_of(s: Seq<u64>) -> int
    decreases s.len(),
{
    if s.len() <= 1 {
        if s.len() == 1 { s[0] as int } else { 0 }
    } else if s.last() < min_of(s.drop_last()) {
        s.last() as int
    } else {
        min_of(s.drop_last())
    }
}

pub open spec fn max_of(s: Seq<u64>) -> int
    decreases s.len(),
{
    if s.len() <= 1 {
        if s.len() == 1 { s[0] as int } else { 0 }
    } else if s.last() > max_of(s.drop_last()) {
        s.last() as int
    } else {
        max_of(s.drop_last())
    }
}

/// Where `x` goes in the sorted `p`: after every entry not above it.
pub open spec fn insert_pos(p: Seq<u64>, x: u64) -> int
    decreases p.len(),
{
    if p.len() == 0 || p.last() <= x {
        p.len() as int
    } else {
        insert_pos(p.drop_last(), x)
    }
}

pub open spec fn insert_sorted(p: Seq<u64>, x: u64) -> Seq<u64> {
    p.insert(insert_pos(p, x), x)
}

/// `s` in ascending order.
pub open spec fn sort_seq(s: Seq<u64>) -> Seq<u64>
    decreases s.len(),
{
    if s.len() == 0 {
        s
    } else {
        insert_sorted(sort_seq(s.drop_last()), s.last())
    }
}

pub open spec fn is_sorted(s: Seq<u64>) -> bool {
    forall|i: int, j: int| 0 <= i <= j < s.len() ==> s[i] <= s[j]
}

/// The median of `s` as a numerator and a denominator: the middle of the
/// sorted samples, or the mean of the two middle ones for an even count.
pub open spec fn median_of(s: Seq<u64>) -> (int, int) {
    let p = sort_seq(s);
    let n = p.len() as int;
    if n % 2 == 1 {
        (p[n / 2] as int, 1)
    } else {
        (p[n / 2 - 1] + p[n / 2], 2)
    }
}

proof fn lemma_sum_bound(s: Seq<u64>)
    ensures
        0 <= sum_of(s) <= s.len() * 0xffff_ffff_ffff_ffff,
    decreases s.len(),
{
    if s.len() > 0 {
        lemma_sum_bound(s.drop_last());
    }
}

proof fn lemma_sum_sq_nonneg(s: Seq<u64>)
    ensures
        0 <= sum_sq(s),
    decreases s.len(),
{
    if s.len() > 0 {
        lemma_sum_sq_nonneg(s.drop_last());
        let x = s.last() as int;
        assert(0 <= x * x) by (nonlinear_arith);
    }
}

proof fn lemma_spread(s: Seq<u64>, x: int)
    ensures
        sum_sq(s) - 2 * sum_of(s) * x + s.len() * x * x >= 0,
    decreases s.len(),
{
    if s.len() > 0 {
        let t = s.drop_last();
        lemma_spread(t, x);
        let y = s.last() as int;
        let q = sum_sq(t);
        let a = sum_of(t);
        let n = t.len() as int;
        assert(q + y * y - 2 * (a + y) * x + (n + 1) * x * x == (q - 2 * a * x + n * x * x) + (y
            - x) * (y - x)) by (nonlinear_arith);
        assert((y - x) * (y - x) >= 0) by (nonlinear_arith);
    }
}

/// The population variance's numerator is never negative.
proof fn lemma_cauchy(s: Seq<u64>)
    ensures
        sum_of(s) * sum_of(s) <= s.len() * sum_sq(s),
    decreases s.len(),
{
    if s.len() > 0 {
        let t = s.drop_last();
        lemma_cauchy(t);
        let x = s.last() as int;
        lemma_spread(t, x);
        let q = sum_sq(t);
        let a = sum_of(t);
        let n = t.len() as int;
        assert((a + x) * (a + x) <= (n + 1) * (q + x * x)) by (nonlinear_arith)
            requires
                a * a <= n * q,
                q - 2 * a * x + n * x * x >= 0,
        ;
    }
}

/// Sum of the durations.
pub fn total(v: &Vec<u64>) -> (r: u128)
    ensures
        r == sum_of(v@),
{
    let mut acc: u128 = 0;
    let mut i: usize = 0;
    while i < v.len()
        invariant
            i <= v.len(),
            acc == sum_of(v@.take(i as int)),
        decreases v.len() - i,
    {
        proof {
            assert(v@.take(i + 1).drop_last() =~= v@.take(i as int));
            lemma_sum_bound(v@.take(i + 1));
            assert((i + 1) * 0xffff_ffff_ffff_ffffint <= u128_limit())
                by (nonlinear_arith)
                requires
                    i + 1 <= 0xffff_ffff_ffff_ffffint,
            ;
        }
        acc = acc + v[i] as u128;
        i += 1;
    }
    proof {
        assert(v@.take(v.len() as int) =~= v@);
    }
    acc
}

/// The arithmetic mean of the durations.
pub fn mean(v: &Vec<u64>) -> (r: Fraction)
    requires
        v.len() > 0,
    ensures
        r.num == sum_of(v@),
        r.den == v.len(),
{
    Fraction { num: total(v), den: v.len() as u128 }
}

/// The smallest duration.
pub fn minimum(v: &Vec<u64>) -> (r: u64)
    requires
        v.len() > 0,
    ensures
        r == min_of(v@),
{
    let mut m = v[0];
    let mut i: usize = 1;
    proof {
        assert(v@.take(1) =~= seq![v@[0]]);
    }
    while i < v.len()
        invariant
            1 <= i <= v.len(),
            m == min_of(v@.take(i as int)),
        decreases v.len() - i,
    {
        proof {
            assert(v@.take(i + 1).drop_last() =~= v@.take(i as int));
        }
        if v[i] < m {
            m = v[i];
        }
        i += 1;
    }
    proof {
        assert(v@.take(v.len() as int) =~= v@);
    }
    m
}

/// The largest duration.
pub fn maximum(v: &Vec<u64>) -> (r: u64)
    requires
        v.len() > 0,
    ensures
        r == max_of(v@),
{
    let mut m = v[0];
    let mut i: usize = 1;
    proof {
        assert(v@.take(1) =~= seq![v@[0]]);
    }
    while i < v.len()
        invariant
            1 <= i <= v.len(),
            m == max_of(v@.take(i as int)),
        decreases v.len() - i,
    {
        proof {
            assert(v@.take(i + 1).drop_last() =~= v@.take(i as int));
        }
        if v[i] > m {
            m = v[i];
        }
        i += 1;
    }
    proof {
        assert(v@.take(v.len() as int) =~= v@);
    }
    m
}


proof fn lemma_insert_pos(p: Seq<u64>, x: u64)
    ensures
        0 <= insert_pos(p, x) <= p.len(),
        is_sorted(p) ==> forall|i: int| 0 <= i < insert_pos(p, x) ==> #[trigger] p[i] <= x,
        forall|i: int| insert_pos(p, x) <= i < p.len() ==> x < #[trigger] p[i],
    decreases p.len(),
{
    if p.len() > 0 && p.last() > x {
        lemma_insert_pos(p.drop_last(), x);
        let q = p.drop_last();
        assert forall|i: int| insert_pos(p, x) <= i < p.len() implies x < #[trigger] p[i] by {
            if i < q.len() {
                assert(p[i] == q[i]);
            }
        }
        if is_sorted(p) {
            assert(is_sorted(q));
            assert forall|i: int| 0 <= i < insert_pos(p, x) implies #[trigger] p[i] <= x by {
                assert(p[i] == q[i]);
            }
        }
    }
}

/// Sorting keeps the samples and puts them in ascending order.
pub proof fn lemma_sort_seq(s: Seq<u64>)
    ensures
        sort_seq(s).len() == s.len(),
        is_sorted(sort_seq(s)),
        sort_seq(s).to_multiset() == s.to_multiset(),
    decreases s.len(),
{
    broadcast use vstd::seq_lib::group_to_multiset_ensures;

    if s.len() > 0 {
        let t = s.drop_last();
        let x = s.last();
        lemma_sort_seq(t);
        let p = sort_seq(t);
        let k = insert_pos(p, x);
        lemma_insert_pos(p, x);
        vstd::seq_lib::to_multiset_insert(p, k, x);
        let q = p.insert(k, x);
        assert forall|i: int, j: int| 0 <= i <= j < q.len() implies q[i] <= q[j] by {
            if j < k {
                assert(q[i] == p[i] && q[j] == p[j]);
            } else if j == k {
                if i < k {
                    assert(q[i] == p[i]);
                }
            } else if i < k {
                assert(q[i] == p[i] && q[j] == p[j - 1]);
            } else if i == k {
                assert(q[j] == p[j - 1]);
            } else {
                assert(q[i] == p[i - 1] && q[j] == p[j - 1]);
            }
        }
        assert(s =~= t.push(x));
    }
}

proof fn lemma_sorted_unique(p: Seq<u64>, q: Seq<u64>)
    requires
        is_sorted(p),
        is_sorted(q),
        p.to_multiset() == q.to_multiset(),
    ensures
        p == q,
    decreases p.len(),
{
    broadcast use vstd::seq_lib::group_to_multiset_ensures;
    broadcast use vstd::multiset::group_multiset_axioms;

    vstd::seq_lib::to_multiset_len(p);
    vstd::seq_lib::to_multiset_len(q);
    if p.len() == 0 {
        assert(q.len() == 0);
        assert(p =~= q);
    } else {
        assert(q.len() == p.len());
        let x = p.last();
        let y = q.last();
        assert(p.contains(x)) by {
            assert(p[p.len() - 1] == x);
        }
        vstd::seq_lib::to_multiset_contains(p, x);
        vstd::seq_lib::to_multiset_contains(q, x);
        vstd::seq_lib::to_multiset_contains(p, y);
        vstd::seq_lib::to_multiset_contains(q, y);
        assert(q.contains(x));
        let j = choose|j: int| 0 <= j < q.len() && q[j] == x;
        assert(x <= y);
        assert(q.contains(y)) by {
            assert(q[q.len() - 1] == y);
        }
        assert(p.contains(y));
        let i = choose|i: int| 0 <= i < p.len() && p[i] == y;
        assert(y <= x);
        let pd = p.drop_last();
        let qd = q.drop_last();
        assert(pd.push(x) =~= p);
        assert(qd.push(x) =~= q);
        assert(pd.to_multiset() =~= p.to_multiset().remove(x));
        assert(qd.to_multiset() =~= q.to_multiset().remove(x));
        lemma_sorted_unique(pd, qd);
        assert(p =~= q);
    }
}

/// The median does not depend on the order in which the samples were
/// recorded.
pub proof fn lemma_median_order_free(s: Seq<u64>, t: Seq<u64>)
    requires
        s.to_multiset() == t.to_multiset(),
    ensures
        median_of(s) == median_of(t),
{
    lemma_sort_seq(s);
    lemma_sort_seq(t);
    lemma_sorted_unique(sort_seq(s), sort_seq(t));
}

fn insert_in_order(v: &mut Vec<u64>, x: u64)
    ensures
        final(v)@ == insert_sorted(old(v)@, x),
{
    let ghost p = v@;
    let mut j: usize = v.len();
    proof {
        assert(p.take(p.len() as int) =~= p);
    }
    while j > 0 && v[j - 1] > x
        invariant
            j <= v.len(),
            v@ == p,
            insert_pos(p, x) == insert_pos(p.take(j as int), x),
        decreases j,
    {
        proof {
            assert(p.take(j as int).drop_last() =~= p.take(j - 1));
        }
        j -= 1;
    }
    proof {
        if j > 0 {
            assert(p.take(j as int).last() == p[j - 1]);
        }
    }
    v.insert(j, x);
}

/// The durations in ascending order.
pub fn sorted_copy(v: &Vec<u64>) -> (r: Vec<u64>)
    ensures
        r@ == sort_seq(v@),
{
    let mut out: Vec<u64> = Vec::new();
    let mut i: usize = 0;
    proof {
        assert(v@.take(0) =~= Seq::<u64>::empty());
    }
    while i < v.len()
        invariant
            i <= v.len(),
            out@ == sort_seq(v@.take(i as int)),
        decreases v.len() - i,
    {
        proof {
            assert(v@.take(i + 1).drop_last() =~= v@.take(i as int));
        }
        insert_in_order(&mut out, v[i]);
        i += 1;
    }
    proof {
        assert(v@.take(v.len() as int) =~= v@);
    }
    out
}

/// The median: the middle sorted duration, or the mean of the two middle
/// ones when the count is even.
pub fn median(v: &Vec<u64>) -> (r: Fraction)
    requires
        v.len() > 0,
    ensures
        r.num == median_of(v@).0,
        r.den == median_of(v@).1,
{
    let p = sorted_copy(v);
    proof {
        lemma_sort_seq(v@);
    }
    let n = p.len();
    if n % 2 == 1 {
        Fraction { num: p[n / 2] as u128, den: 1 }
    } else {
        Fraction { num: p[n / 2 - 1] as u128 + p[n / 2] as u128, den: 2 }
    }
}

/// The largest value a `u128` holds.
pub open spec fn u128_limit() -> int {
    0xffff_ffff_ffff_ffff_ffff_ffff_ffff_ffffint
}

/// The population variance `(n * sum(x^2) - sum(x)^2) / n^2`, when
/// `n * sum(x^2)` fits in 128 bits; `None` otherwise.
pub fn variance(v: &Vec<u64>) -> (r: Option<Fraction>)
    requires
        v.len() > 0,
    ensures
        r is Some <==> v.len() * sum_sq(v@) <= u128_limit(),
        r matches Some(f) ==> f.num == v.len() * sum_sq(v@) - sum_of(v@) * sum_of(v@) && f.den
            == v.len() * v.len(),
{
    let n = v.len() as u128;
    let mut q: u128 = 0;
    let mut i: usize = 0;
    while i < v.len()
        invariant
            i <= v.len(),
            n == v.len(),
            q == sum_sq(v@.take(i as int)),
        decreases v.len() - i,
    {
        proof {
            assert(v@.take(i + 1).drop_last() =~= v@.take(i as int));
        }
        let x = v[i] as u128;
        assert(x * x <= u128_limit()) by (nonlinear_arith)
            requires
                x <= 0xffff_ffff_ffff_ffffint,
        ;
        match q.checked_add(x * x) {
            Some(s) => {
                q = s;
            },
            None => {
                proof {
                    lemma_sum_sq_grows(v@, i as int + 1);
                    assert(sum_sq(v@) * 1 <= v.len() * sum_sq(v@)) by (nonlinear_arith)
                        requires
                            v.len() >= 1,
                            sum_sq(v@) >= 0,
                    ;
                }
                return None;
            },
        }
        i += 1;
    }
    proof {
        assert(v@.take(v.len() as int) =~= v@);
        lemma_cauchy(v@);
        lemma_sum_bound(v@);
        lemma_sum_sq_nonneg(v@);
    }
    match n.checked_mul(q) {
        Some(nq) => {
            let s = total(v);
            let s2 = s * s;
            assert(n * n <= u128_limit()) by (nonlinear_arith)
                requires
                    n <= 0xffff_ffff_ffff_ffffint,
            ;
            let n2 = n * n;
            Some(Fraction { num: nq - s2, den: n2 })
        },
        None => None,
    }
}

proof fn lemma_sum_sq_grows(s: Seq<u64>, k: int)
    requires
        0 <= k <= s.len(),
    ensures
        sum_sq(s.take(k)) <= sum_sq(s),
    decreases s.len() - k,
{
    if k < s.len() {
        assert(s.take(k + 1).drop_last() =~= s.take(k));
        lemma_sum_sq_grows(s, k + 1);
        assert(s[k] * s[k] >= 0) by (nonlinear_arith);
    } else {
        assert(s.take(k) =~= s);
    }
}


/// The integer square root of `num / den`, rounded down: the `r` with
/// `r^2 * den <= num < (r + 1)^2 * den`.
pub open spec fn is_sqrt_floor(r: int, f: Fraction) -> bool {
    r * r * f.den <= f.num < (r + 1) * (r + 1) * f.den
}

pub open spec fn sqrt_floor_of(f: Fraction) -> int {
    choose|r: int| 0 <= r && is_sqrt_floor(r, f)
}

proof fn lemma_sqrt_floor_unique(r: int, s: int, f: Fraction)
    requires
        0 <= r,
        0 <= s,
        is_sqrt_floor(r, f),
        is_sqrt_floor(s, f),
    ensures
        r == s,
{
    if r < s {
        assert((r + 1) * (r + 1) * f.den <= s * s * f.den) by (nonlinear_arith)
            requires
                r + 1 <= s,
                0 <= r,
                f.den >= 0,
        ;
    } else if s < r {
        assert((s + 1) * (s + 1) * f.den <= r * r * f.den) by (nonlinear_arith)
            requires
                s + 1 <= r,
                0 <= s,
                f.den >= 0,
        ;
    }
}

/// The largest `r` with `r * r <= q`.
fn isqrt(q: u128) -> (r: u64)
    ensures
        r * r <= q < (r + 1) * (r + 1),
{
    let mut lo: u128 = 0;
    let mut hi: u128 = 0x1_0000_0000_0000_0000;
    assert(q < hi * hi);
    while hi - lo > 1
        invariant
            lo < hi <= 0x1_0000_0000_0000_0000,
            lo * lo <= q < hi * hi,
        decreases hi - lo,
    {
        let mid = lo + (hi - lo) / 2;
        assert(mid * mid <= u128_limit()) by (nonlinear_arith)
            requires
                mid < 0x1_0000_0000_0000_0000int,
        ;
        if mid * mid <= q {
            lo = mid;
        } else {
            hi = mid;
        }
    }
    lo as u64
}

/// The standard deviation for the variance `v`, rounded down.
pub fn std_dev(v: Fraction) -> (r: u64)
    requires
        v.den > 0,
    ensures
        is_sqrt_floor(r as int, v),
        r == sqrt_floor_of(v),
{
    let q = v.num / v.den;
    let r = isqrt(q);
    proof {
        let ri = r as int;
        let n = v.num as int;
        let d = v.den as int;
        let qi = q as int;
        assert(qi * d <= n && n < (qi + 1) * d) by (nonlinear_arith)
            requires
                d > 0,
                qi == n / d,
        ;
        assert(ri * ri * d <= n) by (nonlinear_arith)
            requires
                ri * ri <= qi,
                qi * d <= n,
                d > 0,
        ;
        assert(n < (ri + 1) * (ri + 1) * d) by (nonlinear_arith)
            requires
                qi + 1 <= (ri + 1) * (ri + 1),
                n < (qi + 1) * d,
                d > 0,
        ;
        let c = sqrt_floor_of(v);
        assert(is_sqrt_floor(ri, v));
        lemma_sqrt_floor_unique(c, ri, v);
    }
    r
}

/// Summary statistics of a non-empty run of durations.
#[derive(Clone, Copy, Debug, PartialEq, Eq, Structural)]
pub struct Summary {
    pub count: u64,
    pub mean: Fraction,
    pub median: Fraction,
    /// Population variance; `None` when it does not fit in 128 bits.
    pub variance: Option<Fraction>,
    /// Population standard deviation, rounded down; present with the
    /// variance.
    pub std_dev: Option<u64>,
    pub min: u64,
    pub max: u64,
}

pub open spec fn variance_of(s: Seq<u64>) -> Option<Fraction> {
    if s.len() * sum_sq(s) <= u128_limit() {
        Some(
            Fraction {
                num: (s.len() * sum_sq(s) - sum_of(s) * sum_of(s)) as u128,
                den: (s.len() * s.len()) as u128,
            },
        )
    } else {
        None
    }
}

/// The summary of `s`, or `None` when there is no sample.
pub open spec fn summary_of(s: Seq<u64>) -> Option<Summary> {
    if s.len() == 0 {
        None
    } else {
        Some(
            Summary {
                count: s.len() as u64,
                mean: Fraction { num: sum_of(s) as u128, den: s.len() as u128 },
                median: Fraction { num: median_of(s).0 as u128, den: median_of(s).1 as u128 },
                variance: variance_of(s),
                std_dev: match variance_of(s) {
                    Some(f) => Some(sqrt_floor_of(f) as u64),
                    None => None,
                },
                min: min_of(s) as u64,
                max: max_of(s) as u64,
            },
        )
    }
}

/// Mean, median, population variance, minimum and maximum of the durations.
pub fn summarize(v: &Vec<u64>) -> (r: Option<Summary>)
    ensures
        r == summary_of(v@),
{
    if v.len() == 0 {
        return None;
    }
    let mean = mean(v);
    let median = median(v);
    let variance = variance(v);
    proof {
        let n = v.len() as int;
        assert(n * n > 0) by (nonlinear_arith)
            requires
                n > 0,
        ;
    }
    let std_dev = match variance {
        Some(f) => Some(std_dev(f)),
        None => None,
    };
    let min = minimum(v);
    let max = maximum(v);
    Some(Summary { count: v.len() as u64, mean, median, variance, std_dev, min, max })
}

/// `target / baseline`, or `None` when the baseline is zero or the cross
/// products do not fit in 128 bits.
pub open spec fn ratio_of(target: Fraction, baseline: Fraction) -> Option<Fraction> {
    if baseline.num > 0 && target.num * baseline.den <= u128_limit() && target.den * baseline.num
        <= u128_limit() {
        Some(
            Fraction {
                num: (target.num * baseline.den) as u128,
                den: (target.den * baseline.num) as u128,
            },
        )
    } else {
        None
    }
}

/// A target's mean relative to the baseline's.
pub fn relative(target: Fraction, baseline: Fraction) -> (r: Option<Fraction>)
    ensures
        r == ratio_of(target, baseline),
{
    if baseline.num == 0 {
        return None;
    }
    match (target.num.checked_mul(baseline.den), target.den.checked_mul(baseline.num)) {
        (Some(num), Some(den)) => Some(Fraction { num, den }),
        _ => None,
    }
}

/// The reported ratio is the target's mean divided by the baseline's, and
/// the baseline compared with itself gives exactly one.
pub proof fn lemma_relative(target: Fraction, baseline: Fraction)
    ensures
        ratio_of(target, baseline) matches Some(f) ==> f.num * target.den * baseline.num == f.den
            * target.num * baseline.den,
        baseline.num > 0 && baseline.den > 0 && baseline.num * baseline.den <= u128_limit()
            ==> (ratio_of(baseline, baseline) matches Some(f) && f.num == f.den && f.den > 0),
{
    if let Some(f) = ratio_of(target, baseline) {
        let a = target.num as int;
        let b = target.den as int;
        let c = baseline.num as int;
        let d = baseline.den as int;
        assert((a * d) * b * c == (b * c) * a * d) by (nonlinear_arith);
    }
    if baseline.num > 0 && baseline.den > 0 && baseline.num * baseline.den <= u128_limit() {
        let c = baseline.num as int;
        let d = baseline.den as int;
        assert(c * d == d * c && d * c > 0) by (nonlinear_arith)
            requires
                c > 0,
                d > 0,
        ;
    }
}

} // verus!
