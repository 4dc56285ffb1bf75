//! The integer side of the volume profile: tick volume per price bucket,
//! the point of control and the value area around it.

use vstd::prelude::*;

verus! {

/// Sum of a sequence of volumes.
pub open spec fn seq_sum(s: Seq<u64>) -> int
    decreases s.len(),
{
    if s.len() == 0 {
        0
    } else {
        seq_sum(s.drop_last()) + s.last()
    }
}

/// Sum of the volumes of the buckets `lo..=hi`.
pub open spec fn range_sum(b: Seq<u64>, lo: int, hi: int) -> int {
    seq_sum(b.subrange(lo, hi + 1))
}

pub proof fn lemma_sum_nonneg(s: Seq<u64>)
    ensures
        seq_sum(s) >= 0,
    decreases s.len(),
{
    if s.len() > 0 {
        lemma_sum_nonneg(s.drop_last());
    }
}

/// The sum of a concatenation is the sum of the sums.
pub proof fn lemma_sum_concat(a: Seq<u64>, b: Seq<u64>)
    ensures
        seq_sum(a + b) == seq_sum(a) + seq_sum(b),
    decreases b.len(),
{
    if b.len() == 0 {
        assert(a + b =~= a);
    } else {
        lemma_sum_concat(a, b.drop_last());
        assert((a + b).drop_last() =~= a + b.drop_last());
    }
}

/// Volume of a window grown by one bucket on either side.
pub proof fn lemma_range_grow(b: Seq<u64>, lo: int, hi: int)
    requires
        0 <= lo <= hi < b.len(),
    ensures
        lo > 0 ==> range_sum(b, lo - 1, hi) == b[lo - 1] + range_sum(b, lo, hi),
        hi + 1 < b.len() ==> range_sum(b, lo, hi + 1) == range_sum(b, lo, hi) + b[hi + 1],
        range_sum(b, lo, hi) <= seq_sum(b),
        range_sum(b, lo, hi) >= 0,
{
    if lo > 0 {
        lemma_sum_concat(seq![b[lo - 1]], b.subrange(lo, hi + 1));
        assert(seq![b[lo - 1]] + b.subrange(lo, hi + 1) =~= b.subrange(lo - 1, hi + 1));
        assert(seq_sum(seq![b[lo - 1]]) == b[lo - 1]) by {
            assert(seq![b[lo - 1]].drop_last() =~= Seq::<u64>::empty());
            reveal_with_fuel(seq_sum, 2);
        }
    }
    if hi + 1 < b.len() {
        assert(b.subrange(lo, hi + 2).drop_last() =~= b.subrange(lo, hi + 1));
    }
    lemma_sum_concat(b.subrange(0, lo), b.subrange(lo, hi + 1));
    lemma_sum_concat(b.subrange(0, lo) + b.subrange(lo, hi + 1), b.subrange(hi + 1, b.len() as int));
    assert(b.subrange(0, lo) + b.subrange(lo, hi + 1) + b.subrange(hi + 1, b.len() as int) =~= b);
    lemma_sum_nonneg(b.subrange(0, lo));
    lemma_sum_nonneg(b.subrange(lo, hi + 1));
    lemma_sum_nonneg(b.subrange(hi + 1, b.len() as int));
}

/// Buckets after placing each `(index, volume)` entry, in order, into bucket
/// `min(index, n - 1)`.
pub open spec fn spec_fill(n: nat, entries: Seq<(usize, u64)>) -> Seq<int>
    decreases entries.len(),
{
    if entries.len() == 0 {
        Seq::new(n, |i: int| 0int)
    } else {
        let prev = spec_fill(n, entries.drop_last());
        let e = entries.last();
        let k = if e.0 < n - 1 { e.0 as int } else { n - 1 };
        prev.update(k, prev[k] + e.1)
    }
}

/// Total volume of the entries.
pub open spec fn entries_total(entries: Seq<(usize, u64)>) -> int
    decreases entries.len(),
{
    if entries.len() == 0 {
        0
    } else {
        entries_total(entries.drop_last()) + entries.last().1
    }
}

pub proof fn lemma_fill_shape(n: nat, entries: Seq<(usize, u64)>)
    requires
        n > 0,
    ensures
        spec_fill(n, entries).len() == n,
        forall|k: int|
            0 <= k < n ==> 0 <= #[trigger] spec_fill(n, entries)[k] <= entries_total(entries),
    decreases entries.len(),
{
    if entries.len() > 0 {
        lemma_fill_shape(n, entries.drop_last());
    }
}

/// Tick volume per bucket: `n` buckets, each entry's volume added to bucket
/// `min(index, n - 1)`.
pub fn fill_buckets(n: usize, entries: &Vec<(usize, u64)>) -> (r: Vec<u64>)
    requires
        n > 0,
        entries_total(entries@) <= u64::MAX,
    ensures
        r@.len() == n,
        forall|k: int| 0 <= k < n ==> r@[k] == #[trigger] spec_fill(n as nat, entries@)[k],
        seq_sum(r@) == entries_total(entries@),
{
    let mut buckets: Vec<u64> = Vec::new();
    let mut i: usize = 0;
    while i < n
        invariant
            i <= n,
            buckets@.len() == i,
            forall|k: int| 0 <= k < i ==> buckets@[k] == 0,
        decreases n - i,
    {
        buckets.push(0);
        i = i + 1;
    }
    let mut j: usize = 0;
    while j < entries.len()
        invariant
            n > 0,
            j <= entries.len(),
            buckets@.len() == n,
            entries_total(entries@) <= u64::MAX,
            forall|k: int|
                0 <= k < n ==> buckets@[k] == #[trigger] spec_fill(
                    n as nat,
                    entries@.subrange(0, j as int),
                )[k],
        decreases entries.len() - j,
    {
        let ghost pre = entries@.subrange(0, j as int);
        let ghost post = entries@.subrange(0, j as int + 1);
        proof {
            assert(post.drop_last() =~= pre);
            lemma_fill_shape(n as nat, pre);
            lemma_total_prefix(entries@, j as int + 1);
        }
        let (idx, vol) = entries[j];
        let k = if idx < n - 1 { idx } else { n - 1 };
        proof {
            assert(spec_fill(n as nat, pre)[k as int] <= entries_total(pre));
        }
        buckets.set(k, buckets[k] + vol);
        j = j + 1;
        proof {
            assert forall|m: int| 0 <= m < n implies buckets@[m] == #[trigger] spec_fill(
                n as nat,
                entries@.subrange(0, j as int),
            )[m] by {
                assert(entries@.subrange(0, j as int) == post);
            }
        }
    }
    assert(entries@.subrange(0, entries.len() as int) =~= entries@);
    proof {
        lemma_fill_shape(n as nat, entries@);
        lemma_fill_conserves(n as nat, entries@);
        lemma_sum_same(buckets@, spec_fill(n as nat, entries@));
    }
    buckets
}

/// A prefix of the entries has no more volume than all of them.
pub proof fn lemma_total_prefix(entries: Seq<(usize, u64)>, j: int)
    requires
        0 <= j <= entries.len(),
    ensures
        0 <= entries_total(entries.subrange(0, j)) <= entries_total(entries),
        j > 0 ==> entries_total(entries.subrange(0, j)) == entries_total(entries.subrange(0, j - 1))
            + entries[j - 1].1,
    decreases entries.len(),
{
    if j > 0 {
        assert(entries.subrange(0, j).drop_last() =~= entries.subrange(0, j - 1));
    }
    if entries.len() > 0 {
        if j == entries.len() {
            assert(entries.subrange(0, j) =~= entries);
            lemma_total_prefix(entries.drop_last(), j - 1);
            assert(entries.drop_last().subrange(0, j - 1) =~= entries.subrange(0, j - 1));
        } else {
            lemma_total_prefix(entries.drop_last(), j);
            assert(entries.drop_last().subrange(0, j) =~= entries.subrange(0, j));
        }
    }
}

/// Total tick volume of the buckets.
pub fn bucket_total(b: &Vec<u64>) -> (r: u64)
    requires
        seq_sum(b@) <= u64::MAX,
    ensures
        r == seq_sum(b@),
{
    let mut acc: u64 = 0;
    let mut i: usize = 0;
    while i < b.len()
        invariant
            i <= b.len(),
            seq_sum(b@) <= u64::MAX,
            acc == seq_sum(b@.subrange(0, i as int)),
        decreases b.len() - i,
    {
        proof {
            assert(b@.subrange(0, i as int + 1).drop_last() =~= b@.subrange(0, i as int));
            lemma_sum_concat(b@.subrange(0, i as int + 1), b@.subrange(i as int + 1, b@.len() as int));
            assert(b@.subrange(0, i as int + 1) + b@.subrange(i as int + 1, b@.len() as int) =~= b@);
            lemma_sum_nonneg(b@.subrange(i as int + 1, b@.len() as int));
        }
        acc = acc + b[i];
        i = i + 1;
    }
    assert(b@.subrange(0, b@.len() as int) =~= b@);
    acc
}

/// `p` is the point of control: the last bucket with the largest volume.
pub open spec fn is_point_of_control(b: Seq<u64>, p: int) -> bool {
    &&& 0 <= p < b.len()
    &&& forall|j: int| 0 <= j < b.len() ==> b[j] <= b[p]
    &&& forall|j: int| p < j < b.len() ==> b[j] < b[p]
}

/// The value area grown from `lo..=hi` holding `vol`: while it holds less
/// than `target` and can grow, it takes in the neighbour with the larger
/// volume, the lower one on a tie.
pub open spec fn spec_expand(b: Seq<u64>, target: int, lo: int, hi: int, vol: int) -> (int, int)
    decreases lo + (b.len() - 1 - hi),
    when 0 <= lo && hi < b.len()
{
    let n = b.len() as int;
    if vol < target && (lo > 0 || hi < n - 1) {
        let add_lo: int = if lo > 0 { b[lo - 1] as int } else { 0 };
        let add_hi: int = if hi < n - 1 { b[hi + 1] as int } else { 0 };
        if add_lo >= add_hi && lo > 0 {
            spec_expand(b, target, lo - 1, hi, vol + b[lo - 1])
        } else if hi < n - 1 {
            spec_expand(b, target, lo, hi + 1, vol + b[hi + 1])
        } else if lo > 0 {
            spec_expand(b, target, lo - 1, hi, vol + b[lo - 1])
        } else {
            (lo, hi)
        }
    } else {
        (lo, hi)
    }
}

/// Growing the window keeps the point of control inside it, stays within
/// the buckets, and stops only once the window holds the target volume or
/// spans every bucket.
pub proof fn lemma_expand_covers(b: Seq<u64>, target: int, lo: int, hi: int, vol: int)
    requires
        0 <= lo <= hi < b.len(),
        vol == range_sum(b, lo, hi),
    ensures
        ({
            let (l, h) = spec_expand(b, target, lo, hi, vol);
            &&& 0 <= l <= lo
            &&& hi <= h < b.len()
            &&& range_sum(b, l, h) >= target || (l == 0 && h == b.len() - 1)
        }),
    decreases lo + (b.len() - 1 - hi),
{
    let n = b.len() as int;
    lemma_range_grow(b, lo, hi);
    if vol < target && (lo > 0 || hi < n - 1) {
        let add_lo: int = if lo > 0 { b[lo - 1] as int } else { 0 };
        let add_hi: int = if hi < n - 1 { b[hi + 1] as int } else { 0 };
        if add_lo >= add_hi && lo > 0 {
            lemma_expand_covers(b, target, lo - 1, hi, vol + b[lo - 1]);
        } else if hi < n - 1 {
            lemma_expand_covers(b, target, lo, hi + 1, vol + b[hi + 1]);
        } else if lo > 0 {
            lemma_expand_covers(b, target, lo - 1, hi, vol + b[lo - 1]);
        }
    }
}

/// One growth step of the value area. A window short of the target takes
/// in the neighbouring bucket with the larger volume, the lower one on a
/// tie; with only one neighbour it takes that one; with none, or once the
/// target is reached, it stops.
pub proof fn lemma_expand_step(b: Seq<u64>, target: int, lo: int, hi: int, vol: int)
    requires
        0 <= lo <= hi < b.len(),
    ensures
        vol >= target ==> spec_expand(b, target, lo, hi, vol) == (lo, hi),
        vol < target && lo > 0 && hi + 1 < b.len() && b[lo - 1] >= b[hi + 1] ==> spec_expand(
            b,
            target,
            lo,
            hi,
            vol,
        ) == spec_expand(b, target, lo - 1, hi, vol + b[lo - 1]),
        vol < target && lo > 0 && hi + 1 < b.len() && b[lo - 1] < b[hi + 1] ==> spec_expand(
            b,
            target,
            lo,
            hi,
            vol,
        ) == spec_expand(b, target, lo, hi + 1, vol + b[hi + 1]),
        vol < target && lo == 0 && hi + 1 < b.len() ==> spec_expand(b, target, lo, hi, vol)
            == spec_expand(b, target, lo, hi + 1, vol + b[hi + 1]),
        vol < target && lo > 0 && hi + 1 == b.len() ==> spec_expand(b, target, lo, hi, vol)
            == spec_expand(b, target, lo - 1, hi, vol + b[lo - 1]),
        lo == 0 && hi + 1 == b.len() ==> spec_expand(b, target, lo, hi, vol) == (lo, hi),
{
}

/// The value area's first growth from the point of control: if the point
/// of control alone reaches the target the area is that bucket; otherwise
/// the area takes in the larger of its neighbours (the lower on a tie), or
/// its only neighbour.
pub proof fn lemma_first_growth(b: Seq<u64>, target: int, p: int)
    requires
        0 <= p < b.len(),
    ensures
        ({
            let (l, h) = spec_expand(b, target, p, p, b[p] as int);
            &&& b[p] >= target ==> l == p && h == p
            &&& b[p] < target && 0 < p && p + 1 < b.len() && b[p - 1] >= b[p + 1] ==> l < p
            &&& b[p] < target && 0 < p && p + 1 < b.len() && b[p - 1] < b[p + 1] ==> h > p
            &&& b[p] < target && p == 0 && p + 1 < b.len() ==> h > p
            &&& b[p] < target && 0 < p && p + 1 == b.len() ==> l < p
        }),
{
    let w = b.subrange(p, p + 1);
    assert(w.drop_last() =~= Seq::<u64>::empty());
    assert(w.last() == b[p]);
    reveal_with_fuel(seq_sum, 2);
    assert(range_sum(b, p, p) == b[p]);
    lemma_range_grow(b, p, p);
    lemma_expand_step(b, target, p, p, b[p] as int);
    if b[p] < target {
        if p > 0 {
            lemma_range_grow(b, p - 1, p);
            lemma_expand_covers(b, target, p - 1, p, b[p] + b[p - 1]);
        }
        if p + 1 < b.len() {
            lemma_expand_covers(b, target, p, p + 1, b[p] + b[p + 1]);
        }
    }
}

/// Sum of a sequence of integers.
pub open spec fn int_sum(s: Seq<int>) -> int
    decreases s.len(),
{
    if s.len() == 0 {
        0
    } else {
        int_sum(s.drop_last()) + s.last()
    }
}

pub proof fn lemma_int_sum_update(s: Seq<int>, k: int, v: int)
    requires
        0 <= k < s.len(),
    ensures
        int_sum(s.update(k, s[k] + v)) == int_sum(s) + v,
    decreases s.len(),
{
    let t = s.update(k, s[k] + v);
    if k == s.len() - 1 {
        assert(t.drop_last() =~= s.drop_last());
    } else {
        lemma_int_sum_update(s.drop_last(), k, v);
        assert(t.drop_last() =~= s.drop_last().update(k, s[k] + v));
    }
}

pub proof fn lemma_int_sum_zeros(n: nat)
    ensures
        int_sum(Seq::new(n, |i: int| 0int)) == 0,
    decreases n,
{
    if n > 0 {
        lemma_int_sum_zeros((n - 1) as nat);
        assert(Seq::new(n, |i: int| 0int).drop_last() =~= Seq::new((n - 1) as nat, |i: int| 0int));
    }
}

/// Conservation: filling buckets loses and invents no volume; the buckets
/// hold exactly the entries' total.
pub proof fn lemma_fill_conserves(n: nat, entries: Seq<(usize, u64)>)
    requires
        n > 0,
    ensures
        int_sum(spec_fill(n, entries)) == entries_total(entries),
    decreases entries.len(),
{
    if entries.len() == 0 {
        lemma_int_sum_zeros(n);
    } else {
        lemma_fill_conserves(n, entries.drop_last());
        lemma_fill_shape(n, entries.drop_last());
        let prev = spec_fill(n, entries.drop_last());
        let e = entries.last();
        let k = if e.0 < n - 1 { e.0 as int } else { n - 1 };
        lemma_int_sum_update(prev, k, e.1 as int);
    }
}

/// Two sequences that agree element by element have the same sum.
pub proof fn lemma_sum_same(a: Seq<u64>, b: Seq<int>)
    requires
        a.len() == b.len(),
        forall|k: int| 0 <= k < a.len() ==> a[k] == b[k],
    ensures
        seq_sum(a) == int_sum(b),
    decreases a.len(),
{
    if a.len() > 0 {
        lemma_sum_same(a.drop_last(), b.drop_last());
    }
}

/// Point of control and value area of a volume profile, as bucket indices.
#[derive(Clone, Copy, Debug, PartialEq, Eq, Structural)]
pub struct ValueArea {
    pub poc: usize,
    pub lo: usize,
    pub hi: usize,
}

/// The point of control of non-empty buckets.
pub fn point_of_control(b: &Vec<u64>) -> (r: usize)
    requires
        b@.len() > 0,
    ensures
        is_point_of_control(b@, r as int),
{
    let mut best: usize = 0;
    let mut i: usize = 1;
    while i < b.len()
        invariant
            1 <= i <= b.len(),
            best < i,
            forall|j: int| 0 <= j < i ==> b@[j] <= b@[best as int],
            forall|j: int| best < j < i ==> b@[j] < b@[best as int],
        decreases b.len() - i,
    {
        if b[i] >= b[best] {
            best = i;
        }
        i = i + 1;
    }
    best
}

/// The value area of non-empty buckets: the point of control, then the
/// window around it grown until it holds `target` volume or spans all
/// buckets.
pub fn value_area(b: &Vec<u64>, target: u64) -> (r: ValueArea)
    requires
        b@.len() > 0,
        seq_sum(b@) <= u64::MAX,
    ensures
        is_point_of_control(b@, r.poc as int),
        (r.lo as int, r.hi as int) == spec_expand(
            b@,
            target as int,
            r.poc as int,
            r.poc as int,
            b@[r.poc as int] as int,
        ),
        r.lo <= r.poc <= r.hi < b@.len(),
        range_sum(b@, r.lo as int, r.hi as int) >= target || (r.lo == 0 && r.hi == b@.len() - 1),
        b@[r.poc as int] >= target ==> r.lo == r.poc && r.hi == r.poc,
        b@[r.poc as int] < target && 0 < r.poc && r.poc + 1 < b@.len() && b@[r.poc - 1] >= b@[r.poc
            + 1] ==> r.lo < r.poc,
        b@[r.poc as int] < target && 0 < r.poc && r.poc + 1 < b@.len() && b@[r.poc - 1] < b@[r.poc
            + 1] ==> r.hi > r.poc,
        b@[r.poc as int] < target && r.poc == 0 && r.poc + 1 < b@.len() ==> r.hi > r.poc,
        b@[r.poc as int] < target && 0 < r.poc && r.poc + 1 == b@.len() ==> r.lo < r.poc,
{
    let n = b.len();
    let poc = point_of_control(b);
    let mut va_vol: u64 = b[poc];
    let mut lo = poc;
    let mut hi = poc;
    proof {
        let w = b@.subrange(poc as int, poc as int + 1);
        assert(w.drop_last() =~= Seq::<u64>::empty());
        assert(w.last() == b@[poc as int]);
        reveal_with_fuel(seq_sum, 2);
    }
    while va_vol < target && (lo > 0 || hi < n - 1)
        invariant
            n == b@.len(),
            n > 0,
            seq_sum(b@) <= u64::MAX,
            0 <= lo <= poc <= hi < n,
            va_vol == range_sum(b@, lo as int, hi as int),
            spec_expand(b@, target as int, lo as int, hi as int, va_vol as int) == spec_expand(
                b@,
                target as int,
                poc as int,
                poc as int,
                b@[poc as int] as int,
            ),
        ensures
            0 <= lo <= poc <= hi < n,
            (lo as int, hi as int) == spec_expand(
                b@,
                target as int,
                poc as int,
                poc as int,
                b@[poc as int] as int,
            ),
        decreases lo + (n - 1 - hi),
    {
        proof {
            lemma_range_grow(b@, lo as int, hi as int);
        }
        let add_lo = if lo > 0 { b[lo - 1] } else { 0 };
        let add_hi = if hi < n - 1 { b[hi + 1] } else { 0 };
        if add_lo >= add_hi && lo > 0 {
            let new_lo = lo - 1;
            proof {
                lemma_range_grow(b@, new_lo as int, hi as int);
            }
            va_vol = va_vol + b[new_lo];
            lo = new_lo;
        } else if hi < n - 1 {
            let new_hi = hi + 1;
            proof {
                lemma_range_grow(b@, lo as int, new_hi as int);
            }
            va_vol = va_vol + b[new_hi];
            hi = new_hi;
        } else if lo > 0 {
            let new_lo = lo - 1;
            proof {
                lemma_range_grow(b@, new_lo as int, hi as int);
            }
            va_vol = va_vol + b[new_lo];
            lo = new_lo;
        } else {
            break;
        }
    }
    proof {
        let w = b@.subrange(poc as int, poc as int + 1);
        assert(w.drop_last() =~= Seq::<u64>::empty());
        assert(w.last() == b@[poc as int]);
        reveal_with_fuel(seq_sum, 2);
        lemma_expand_covers(b@, target as int, poc as int, poc as int, b@[poc as int] as int);
        lemma_first_growth(b@, target as int, poc as int);
    }
    ValueArea { poc, lo, hi }
}

} // verus!
