//! Running min / max / sum / count of latency samples.

use vstd::prelude::*;
use vstd::std_specs::iter::IteratorSpec;

verus! {

/// Truncating quotient of `a` by a positive `b`: rounds toward zero.
pub open spec fn trunc_div(a: int, b: int) -> int
    recommends
        b > 0,
{
    if a >= 0 {
        a / b
    } else {
        -((-a) / b)
    }
}

/// The mathematical value of a latency aggregate.
pub struct Summary {
    pub min: i64,
    pub max: i64,
    pub sum: int,
    pub count: int,
}

impl Summary {
    /// The aggregate of no samples.
    pub open spec fn empty() -> Summary {
        Summary { min: i64::MAX, max: i64::MIN, sum: 0, count: 0 }
    }

    /// The aggregate extended by one sample.
    pub open spec fn observe(self, sample: i64) -> Summary {
        Summary {
            min: if sample < self.min { sample } else { self.min },
            max: if sample > self.max { sample } else { self.max },
            sum: self.sum + sample,
            count: self.count + 1,
        }
    }

    /// The aggregate of the samples of both.
    pub open spec fn merge(self, other: Summary) -> Summary {
        Summary {
            min: if other.min < self.min { other.min } else { self.min },
            max: if other.max > self.max { other.max } else { self.max },
            sum: self.sum + other.sum,
            count: self.count + other.count,
        }
    }

    /// The reported average: `(2 * sum - 1) / count`, rounded toward zero, and
    /// zero when there is no sample.
    pub open spec fn average(self) -> int {
        if self.count > 0 {
            trunc_div(self.sum + self.sum - 1, self.count)
        } else {
            0
        }
    }

    /// Sum and count are representable in 64 signed bits.
    pub open spec fn fits(self) -> bool {
        &&& i64::MIN <= self.sum <= i64::MAX
        &&& i64::MIN <= self.count <= i64::MAX
    }

    /// The count is not negative, an aggregate without samples is the empty
    /// one, and one with samples has its minimum at or below its maximum.
    pub open spec fn wf(self) -> bool {
        &&& self.count >= 0
        &&& self.count == 0 ==> self == Summary::empty()
        &&& self.count > 0 ==> self.min <= self.max
    }
}

/// Latency statistics of one worker or of a whole run, in milliseconds.
#[derive(Debug)]
pub struct Latency {
    min: i64,
    max: i64,
    sum: i64,
    num: i64,
}

impl View for Latency {
    type V = Summary;

    closed spec fn view(&self) -> Summary {
        Summary { min: self.min, max: self.max, sum: self.sum as int, count: self.num as int }
    }
}

impl Latency {
    /// Every value built through this interface satisfies it.
    pub open spec fn wf(&self) -> bool {
        self@.wf() && self@.fits()
    }

    /// The aggregate of no samples.
    pub fn new() -> (r: Latency)
        ensures
            r@ == Summary::empty(),
            r.wf(),
    {
        Latency { min: i64::MAX, max: i64::MIN, sum: 0, num: 0 }
    }

    /// The smallest sample, or `i64::MAX` when there is none.
    pub fn min(&self) -> (r: i64)
        ensures
            r == self@.min,
    {
        self.min
    }

    /// The largest sample, or `i64::MIN` when there is none.
    pub fn max(&self) -> (r: i64)
        ensures
            r == self@.max,
    {
        self.max
    }

    /// The number of samples.
    pub fn num(&self) -> (r: i64)
        ensures
            r == self@.count,
    {
        self.num
    }

    /// The sum of the samples.
    pub fn sum(&self) -> (r: i64)
        ensures
            r == self@.sum,
    {
        self.sum
    }

    /// The reported average, `(2 * sum - 1) / count` rounded toward zero, or 0
    /// when there is no sample. The quotient is formed without intermediate
    /// overflow; the caller owes only that it is representable.
    pub fn average(&self) -> (r: i64)
        requires
            i64::MIN <= self@.average() <= i64::MAX,
        ensures
            r == self@.average(),
    {
        if self.num > 0 {
            let twice: i128 = self.sum as i128 + self.sum as i128 - 1;
            let q: i128 = twice / (self.num as i128);
            q as i64
        } else {
            0
        }
    }

    /// The reported average where it is representable in 64 signed bits,
    /// else `None`.
    pub fn checked_average(&self) -> (r: Option<i64>)
        ensures
            r == if i64::MIN <= self@.average() <= i64::MAX {
                Some(self@.average() as i64)
            } else {
                None
            },
    {
        if self.num > 0 {
            let twice: i128 = self.sum as i128 + self.sum as i128 - 1;
            let q: i128 = twice / (self.num as i128);
            if i64::MIN as i128 <= q && q <= i64::MAX as i128 {
                Some(q as i64)
            } else {
                None
            }
        } else {
            Some(0)
        }
    }

    /// Adds one sample.
    pub fn observe(&mut self, latency: i64)
        requires
            old(self).wf(),
            old(self)@.observe(latency).fits(),
        ensures
            final(self)@ == old(self)@.observe(latency),
            final(self).wf(),
    {
        if latency < self.min {
            self.min = latency;
        }
        if latency > self.max {
            self.max = latency;
        }
        self.sum += latency;
        self.num += 1;
    }

    /// Adds the samples of `other`.
    pub fn merge(&mut self, other: &Latency)
        requires
            old(self).wf(),
            other.wf(),
            old(self)@.merge(other@).fits(),
        ensures
            final(self)@ == old(self)@.merge(other@),
            final(self).wf(),
    {
        if other.min < self.min {
            self.min = other.min;
        }
        if other.max > self.max {
            self.max = other.max;
        }
        self.sum += other.sum;
        self.num += other.num;
    }

    /// Adds the samples of every aggregate that `iter` yields, in the order
    /// in which it yields them. Each partial result has to be representable.
    pub fn merge_iter<'a, I>(&mut self, iter: I) where I: Iterator<Item = &'a Latency>
        requires
            old(self).wf(),
            iter.obeys_prophetic_iter_laws(),
            iter.decrease() is Some,
            forall|k: int| 0 <= k < iter.remaining().len() ==> (#[trigger] iter.remaining()[k]).wf(),
            forall|k: int|
                0 <= k <= iter.remaining().len() ==> (#[trigger] merge_all(
                    old(self)@,
                    views(iter.remaining().take(k)),
                )).fits(),
        ensures
            final(self)@ == merge_all(old(self)@, views(iter.remaining())),
            final(self).wf(),
    {
        let mut iter = iter;
        let ghost all = iter.remaining();
        let ghost base = self@;
        let ghost mut done: int = 0;
        loop
            invariant
                self.wf(),
                iter.obeys_prophetic_iter_laws(),
                iter.decrease() is Some,
                0 <= done <= all.len(),
                iter.remaining() == all.skip(done),
                self@ == merge_all(base, views(all.take(done))),
                forall|k: int| 0 <= k < all.len() ==> (#[trigger] all[k]).wf(),
                forall|k: int|
                    0 <= k <= all.len() ==> (#[trigger] merge_all(base, views(all.take(k)))).fits(),
            ensures
                self.wf(),
                self@ == merge_all(base, views(all)),
            decreases iter.decrease()->0,
        {
            match iter.next() {
                Some(other) => {
                    proof {
                        assert(other == all[done]);
                        assert(all.take(done + 1).drop_last() == all.take(done));
                        assert(views(all.take(done + 1)).drop_last() == views(all.take(done)));
                        assert(views(all.take(done + 1)).last() == other@);
                        assert(merge_all(base, views(all.take(done + 1))).fits());
                        assert(iter.remaining() == all.skip(done + 1));
                        done = done + 1;
                    }
                    self.merge(other);
                },
                None => {
                    proof {
                        assert(all.take(done) == all);
                    }
                    break;
                },
            }
        }
    }

    /// The aggregate of the samples of every aggregate that `iter` yields.
    pub fn from_iter<'a, I>(iter: I) -> (r: Latency) where I: Iterator<Item = &'a Latency>
        requires
            iter.obeys_prophetic_iter_laws(),
            iter.decrease() is Some,
            forall|k: int| 0 <= k < iter.remaining().len() ==> (#[trigger] iter.remaining()[k]).wf(),
            forall|k: int|
                0 <= k <= iter.remaining().len() ==> (#[trigger] merge_all(
                    Summary::empty(),
                    views(iter.remaining().take(k)),
                )).fits(),
        ensures
            r@ == merge_all(Summary::empty(), views(iter.remaining())),
            r.wf(),
    {
        let mut total = Latency::new();
        total.merge_iter(iter);
        total
    }
}

/// The mathematical values of a sequence of aggregates.
pub open spec fn views(items: Seq<&Latency>) -> Seq<Summary> {
    items.map_values(|l: &Latency| l@)
}

/// `base` merged with each of `items` in turn.
pub open spec fn merge_all(base: Summary, items: Seq<Summary>) -> Summary
    decreases items.len(),
{
    if items.len() == 0 {
        base
    } else {
        merge_all(base, items.drop_last()).merge(items.last())
    }
}

/// Merging does not depend on which side an aggregate stands.
pub proof fn lemma_merge_commutative(a: Summary, b: Summary)
    ensures
        a.merge(b) == b.merge(a),
{
}

/// Merging three aggregates does not depend on which two are merged first.
pub proof fn lemma_merge_associative(a: Summary, b: Summary, c: Summary)
    ensures
        a.merge(b).merge(c) == a.merge(b.merge(c)),
{
}

/// The empty aggregate is neutral for merging, on either side.
pub proof fn lemma_merge_empty(a: Summary)
    ensures
        a.merge(Summary::empty()) == a,
        Summary::empty().merge(a) == a,
{
}

/// Merging with a well-formed aggregate that holds no sample changes nothing.
pub proof fn lemma_merge_zero_count(a: Summary, b: Summary)
    requires
        b.wf(),
        b.count == 0,
    ensures
        a.merge(b) == a,
        b.merge(a) == a,
{
}

/// The average of an aggregate that holds no sample is zero.
pub proof fn lemma_average_zero_count(a: Summary)
    requires
        a.count == 0,
    ensures
        a.average() == 0,
{
}

/// Observing a sample is merging with the aggregate of that sample alone.
pub proof fn lemma_observe_is_merge(a: Summary, sample: i64)
    ensures
        a.observe(sample) == a.merge(Summary::empty().observe(sample)),
{
}

/// Observing and merging keep aggregates well formed.
pub proof fn lemma_wf_preserved(a: Summary, b: Summary, sample: i64)
    requires
        a.wf(),
        b.wf(),
    ensures
        Summary::empty().wf(),
        a.observe(sample).wf(),
        a.merge(b).wf(),
{
}

/// Merging a joined sequence is merging its first part and then its second.
pub proof fn lemma_merge_all_concat(base: Summary, first: Seq<Summary>, second: Seq<Summary>)
    ensures
        merge_all(base, first + second) == merge_all(merge_all(base, first), second),
    decreases second.len(),
{
    if second.len() == 0 {
        assert(first + second =~= first);
    } else {
        lemma_merge_all_concat(base, first, second.drop_last());
        assert((first + second).drop_last() =~= first + second.drop_last());
    }
}

/// An aggregate may be taken out of the sequence and merged last.
pub proof fn lemma_merge_all_remove(base: Summary, items: Seq<Summary>, i: int)
    requires
        0 <= i < items.len(),
    ensures
        merge_all(base, items) == merge_all(base, items.remove(i)).merge(items[i]),
    decreases items.len(),
{
    if i == items.len() - 1 {
        assert(items.remove(i) =~= items.drop_last());
    } else {
        let front = items.drop_last();
        lemma_merge_all_remove(base, front, i);
        assert(items.remove(i).drop_last() =~= front.remove(i));
        assert(items.remove(i).last() == items.last());
        let rest = merge_all(base, front.remove(i));
        lemma_merge_associative(rest, items[i], items.last());
        lemma_merge_commutative(items[i], items.last());
        lemma_merge_associative(rest, items.last(), items[i]);
    }
}

/// The merged aggregate does not depend on the order in which the parts
/// arrive: two sequences that hold the same aggregates, each as often in the
/// one as in the other, merge to the same.
pub proof fn lemma_merge_all_any_order(base: Summary, s: Seq<Summary>, t: Seq<Summary>)
    requires
        s.to_multiset() == t.to_multiset(),
    ensures
        merge_all(base, s) == merge_all(base, t),
    decreases s.len(),
{
    s.to_multiset_ensures();
    t.to_multiset_ensures();
    if s.len() != 0 {
        let x = s.last();
        assert(s.contains(x));
        assert(s.to_multiset().count(x) > 0);
        assert(t.to_multiset().count(x) > 0);
        assert(t.contains(x));
        let i = t.index_of(x);
        assert(s.remove(s.len() - 1) =~= s.drop_last());
        assert(s.drop_last().to_multiset() == t.remove(i).to_multiset());
        lemma_merge_all_any_order(base, s.drop_last(), t.remove(i));
        lemma_merge_all_remove(base, t, i);
    }
}

} // verus!
