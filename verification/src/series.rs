//! Frame-time series, in capture order and in ascending order.
//!
//! Frame times are whole microseconds. Values and lengths are capped so that
//! every statistic over a series — including the sum of squares that the
//! variance needs — fits 128-bit integer arithmetic.

use vstd::pervasive::VecAdditionalExecFns;
use vstd::prelude::*;

verus! {

broadcast use vstd::seq_lib::group_to_multiset_ensures;

/// Largest frame time, in microseconds, that a series accepts
/// (a little over 71 minutes between two displayed frames).
pub const MAX_FRAME_TIME_US: u64 = 0xFFFF_FFFF;

/// Largest number of samples that a series accepts.
pub const MAX_SAMPLES: usize = 0xFFFF_FFFF;

/// The length and the values of `s` fit the representational caps.
pub open spec fn valid_series(s: Seq<u64>) -> bool {
    &&& s.len() <= MAX_SAMPLES
    &&& forall|i: int| 0 <= i < s.len() ==> s[i] <= MAX_FRAME_TIME_US
}

/// `s` is arranged in non-decreasing order.
pub open spec fn sorted_ascending(s: Seq<u64>) -> bool {
    forall|i: int, j: int| 0 <= i <= j < s.len() ==> s[i] <= s[j]
}

/// Sum of all values of `s`, in microseconds.
pub open spec fn sum_us(s: Seq<u64>) -> int
    decreases s.len(),
{
    if s.len() == 0 {
        0
    } else {
        sum_us(s.drop_last()) + s.last()
    }
}

/// An ordered sequence of frame times in original capture order, one value
/// per presented frame: the elapsed microseconds between two consecutive
/// display changes. Immutable once captured, except for appending during
/// ingestion.
pub struct FrameTimeSeries {
    times: Vec<u64>,
}

impl View for FrameTimeSeries {
    type V = Seq<u64>;

    closed spec fn view(&self) -> Seq<u64> {
        self.times@
    }
}

impl FrameTimeSeries {
    /// The series fits the representational caps.
    pub open spec fn wf(&self) -> bool {
        valid_series(self@)
    }

    /// An empty series.
    pub fn new() -> (s: FrameTimeSeries)
        ensures
            s@ == Seq::<u64>::empty(),
            s.wf(),
    {
        FrameTimeSeries { times: Vec::new() }
    }

    /// Appends one frame time, refusing a value or a length over the caps.
    pub fn push(&mut self, t_us: u64) -> (ok: bool)
        requires
            old(self).wf(),
        ensures
            final(self).wf(),
            ok == (t_us <= MAX_FRAME_TIME_US && old(self)@.len() < MAX_SAMPLES),
            ok ==> final(self)@ == old(self)@.push(t_us),
            !ok ==> final(self)@ == old(self)@,
    {
        if t_us <= MAX_FRAME_TIME_US && self.times.len() < MAX_SAMPLES {
            self.times.push(t_us);
            true
        } else {
            false
        }
    }

    /// Number of samples.
    pub fn len(&self) -> (n: usize)
        ensures
            n == self@.len(),
    {
        self.times.len()
    }

    /// The value at position `i`, in capture order.
    pub fn index(&self, i: usize) -> (t: u64)
        requires
            i < self@.len(),
        ensures
            t == self@[i as int],
    {
        self.times[i]
    }

    /// Copies the series and arranges the copy in ascending order; the
    /// capture-order series stays available for the order-sensitive metrics.
    pub fn sorted(&self) -> (sorted: SortedFrameTimeSeries)
        requires
            self.wf(),
        ensures
            sorted.wf(),
            sorted@.to_multiset() == self@.to_multiset(),
            sorted@.len() == self@.len(),
    {
        let n = self.times.len();
        let mut v: Vec<u64> = Vec::new();
        let mut i: usize = 0;
        while i < n
            invariant
                i <= n,
                n == self@.len(),
                v@.len() == i,
                forall|k: int| 0 <= k < i ==> v@[k] == self@[k],
                self.wf(),
            decreases n - i,
        {
            v.push(self.times[i]);
            i = i + 1;
        }
        assert(v@ =~= self@);

        let ghost orig: Seq<u64> = v@;
        let mut i: usize = 0;
        while i < n
            invariant
                i <= n,
                n == v@.len(),
                v@.len() == orig.len(),
                v@.to_multiset() == orig.to_multiset(),
                forall|a: int, b: int| 0 <= a <= b < i ==> v@[a] <= v@[b],
            decreases n - i,
        {
            let mut j: usize = i;
            while j > 0 && v[j - 1] > v[j]
                invariant
                    j <= i < n,
                    n == v@.len(),
                    v@.len() == orig.len(),
                    v@.to_multiset() == orig.to_multiset(),
                    forall|a: int, b: int|
                        0 <= a <= b <= i && a != j && b != j ==> v@[a] <= v@[b],
                    forall|b: int| j < b <= i ==> v@[j as int] <= v@[b],
                decreases j,
            {
                let ghost before: Seq<u64> = v@;
                let lower = v[j - 1];
                let upper = v[j];
                v.set(j - 1, upper);
                v.set(j, lower);
                proof {
                    assert(v@.to_multiset() =~= before.to_multiset());
                }
                j = j - 1;
            }
            i = i + 1;
        }
        proof {
            lemma_same_multiset_keeps_validity(orig, v@);
        }
        SortedFrameTimeSeries { times: v }
    }
}

/// The same multiset of values as a [`FrameTimeSeries`], arranged in
/// non-decreasing order. Derived by copying and sorting; never mutated
/// afterwards, so the order-statistic metrics can index it directly.
pub struct SortedFrameTimeSeries {
    times: Vec<u64>,
}

impl View for SortedFrameTimeSeries {
    type V = Seq<u64>;

    closed spec fn view(&self) -> Seq<u64> {
        self.times@
    }
}

impl SortedFrameTimeSeries {
    /// The series fits the caps and is in non-decreasing order.
    pub open spec fn wf(&self) -> bool {
        valid_series(self@) && sorted_ascending(self@)
    }

    /// Number of samples.
    pub fn len(&self) -> (n: usize)
        ensures
            n == self@.len(),
    {
        self.times.len()
    }

    /// The value at position `i`, in ascending order.
    pub fn index(&self, i: usize) -> (t: u64)
        requires
            i < self@.len(),
        ensures
            t == self@[i as int],
    {
        self.times[i]
    }
}

/// Extending a partial sum over `[lo, i)` by the value at `i`.
pub proof fn lemma_sum_us_extend(s: Seq<u64>, lo: int, i: int)
    requires
        0 <= lo <= i < s.len(),
    ensures
        sum_us(s.subrange(lo, i + 1)) == sum_us(s.subrange(lo, i)) + s[i],
{
    assert(s.subrange(lo, i + 1).drop_last() =~= s.subrange(lo, i));
    assert(s.subrange(lo, i + 1).last() == s[i]);
}

/// The sum of a valid series is bounded by its length times the cap.
pub proof fn lemma_sum_us_bounds(s: Seq<u64>)
    requires
        forall|i: int| 0 <= i < s.len() ==> s[i] <= MAX_FRAME_TIME_US,
    ensures
        0 <= sum_us(s) <= s.len() * (MAX_FRAME_TIME_US as int),
    decreases s.len(),
{
    if s.len() > 0 {
        assert(forall|i: int|
            0 <= i < s.drop_last().len() ==> s.drop_last()[i] <= MAX_FRAME_TIME_US);
        lemma_sum_us_bounds(s.drop_last());
    }
}

/// Removing one value takes exactly that value out of the sum.
pub proof fn lemma_sum_us_remove(s: Seq<u64>, i: int)
    requires
        0 <= i < s.len(),
    ensures
        sum_us(s.remove(i)) == sum_us(s) - s[i],
    decreases s.len(),
{
    if i == s.len() - 1 {
        assert(s.remove(i) =~= s.drop_last());
    } else {
        assert(s.remove(i).drop_last() =~= s.drop_last().remove(i));
        assert(s.remove(i).last() == s.last());
        assert(s.drop_last()[i] == s[i]);
        lemma_sum_us_remove(s.drop_last(), i);
    }
}

/// Sorting is value-preserving: two series that hold the same multiset of
/// values — as the capture-order series and its sorted copy always do — have
/// the same length and the same total frame time, regardless of input order.
pub proof fn lemma_same_multiset_same_len_and_sum(s1: Seq<u64>, s2: Seq<u64>)
    requires
        s1.to_multiset() == s2.to_multiset(),
    ensures
        s1.len() == s2.len(),
        sum_us(s1) == sum_us(s2),
    decreases s1.len(),
{
    if s1.len() == 0 {
        assert(s1.to_multiset().len() == s1.len());
        assert(s2.to_multiset().len() == s2.len());
    } else {
        let x = s1.last();
        assert(s1[s1.len() - 1] == x);
        assert(s1.contains(x));
        assert(s2.to_multiset().count(x) > 0);
        assert(s2.contains(x));
        let j = choose|j: int| 0 <= j < s2.len() && s2[j] == x;
        assert(s1.drop_last() =~= s1.remove(s1.len() - 1));
        assert(s1.drop_last().to_multiset() == s1.to_multiset().remove(x));
        assert(s2.remove(j).to_multiset() == s2.to_multiset().remove(x));
        lemma_same_multiset_same_len_and_sum(s1.drop_last(), s2.remove(j));
        lemma_sum_us_remove(s2, j);
    }
}

/// The ascending arrangement of a series' values is unique: two series in
/// non-decreasing order that hold the same multiset of values are equal.
/// In particular, the sorted copy of a capture is fully determined by the
/// capture's values.
pub proof fn lemma_sorted_arrangement_unique(s1: Seq<u64>, s2: Seq<u64>)
    requires
        sorted_ascending(s1),
        sorted_ascending(s2),
        s1.to_multiset() == s2.to_multiset(),
    ensures
        s1 =~= s2,
    decreases s1.len(),
{
    lemma_same_multiset_same_len_and_sum(s1, s2);
    if s1.len() > 0 {
        let x1 = s1.last();
        let x2 = s2.last();
        assert(s1[s1.len() - 1] == x1);
        assert(s1.contains(x1));
        assert(s2.to_multiset().count(x1) > 0);
        assert(s2.contains(x1));
        let j = choose|j: int| 0 <= j < s2.len() && s2[j] == x1;
        assert(x1 <= x2);
        assert(s2[s2.len() - 1] == x2);
        assert(s2.contains(x2));
        assert(s1.to_multiset().count(x2) > 0);
        assert(s1.contains(x2));
        let i = choose|i: int| 0 <= i < s1.len() && s1[i] == x2;
        assert(x2 <= x1);
        assert(s1.drop_last() =~= s1.remove(s1.len() - 1));
        assert(s2.drop_last() =~= s2.remove(s2.len() - 1));
        assert(s1.drop_last().to_multiset() == s1.to_multiset().remove(x1));
        assert(s2.drop_last().to_multiset() == s2.to_multiset().remove(x1));
        assert(forall|a: int, b: int|
            0 <= a <= b < s1.drop_last().len() ==> s1.drop_last()[a] <= s1.drop_last()[b]);
        assert(forall|a: int, b: int|
            0 <= a <= b < s2.drop_last().len() ==> s2.drop_last()[a] <= s2.drop_last()[b]);
        lemma_sorted_arrangement_unique(s1.drop_last(), s2.drop_last());
        assert forall|k: int| 0 <= k < s1.len() implies s1[k] == s2[k] by {
            if k < s1.len() - 1 {
                assert(s1.drop_last()[k] == s2.drop_last()[k]);
            }
        }
    }
}

/// A rearrangement of a valid series is itself valid.
pub proof fn lemma_same_multiset_keeps_validity(s1: Seq<u64>, s2: Seq<u64>)
    requires
        s1.to_multiset() == s2.to_multiset(),
        valid_series(s1),
    ensures
        valid_series(s2),
{
    lemma_same_multiset_same_len_and_sum(s1, s2);
    assert forall|i: int| 0 <= i < s2.len() implies s2[i] <= MAX_FRAME_TIME_US by {
        assert(s2.contains(s2[i]));
        assert(s1.to_multiset().count(s2[i]) > 0);
        assert(s1.contains(s2[i]));
        let k = choose|k: int| 0 <= k < s1.len() && s1[k] == s2[i];
        assert(s1[k] <= MAX_FRAME_TIME_US);
    }
}

} // verus!
